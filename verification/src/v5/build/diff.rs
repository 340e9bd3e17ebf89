//! The package changes between two sets of manifests.

use vstd::prelude::*;

use super::manifest::{names_of, workspace, PackageManifest};
use crate::order::{lex_lt, sorted_distinct, strictly_sorted};
use crate::text::{eq_str, views};

verus! {

/// A change of one package between two sets of manifests.
#[derive(Debug, Clone)]
pub enum PackageChange {
    Added { name: String, version: String },
    Removed { name: String, version: String },
    VersionChanged { name: String, from: String, to: String },
}

/// A change as plain values.
pub enum ChangeView {
    Added { name: Seq<char>, version: Seq<char> },
    Removed { name: Seq<char>, version: Seq<char> },
    VersionChanged { name: Seq<char>, from: Seq<char>, to: Seq<char> },
}

/// The change as plain values.
pub open spec fn change_view(c: PackageChange) -> ChangeView {
    match c {
        PackageChange::Added { name, version } => ChangeView::Added { name: name@, version: version@ },
        PackageChange::Removed { name, version } => ChangeView::Removed { name: name@, version: version@ },
        PackageChange::VersionChanged { name, from, to } => ChangeView::VersionChanged {
            name: name@,
            from: from@,
            to: to@,
        },
    }
}

/// The changes as plain values.
pub open spec fn change_views(s: Seq<PackageChange>) -> Seq<ChangeView> {
    s.map_values(|c: PackageChange| change_view(c))
}

/// The package a change is about.
pub open spec fn change_name(c: ChangeView) -> Seq<char> {
    match c {
        ChangeView::Added { name, .. } => name,
        ChangeView::Removed { name, .. } => name,
        ChangeView::VersionChanged { name, .. } => name,
    }
}

/// The version of package `n`: that of the last manifest naming it.
pub open spec fn version_of(ms: Seq<PackageManifest>, n: Seq<char>) -> Option<Seq<char>>
    decreases ms.len(),
{
    if ms.len() == 0 {
        None
    } else if ms.last().name@ == n {
        Some(ms.last().version@)
    } else {
        version_of(ms.drop_last(), n)
    }
}

/// `r` is, by name in order, a change for each package of `to` that
/// `from` lacks (added) or has at another version (version changed).
pub open spec fn arrivals(from: Seq<PackageManifest>, to: Seq<PackageManifest>, r: Seq<ChangeView>) -> bool {
    let keys = r.map_values(|c: ChangeView| change_name(c));
    &&& strictly_sorted(keys)
    &&& keys.to_set() == workspace(to).filter(|n: Seq<char>| version_of(from, n) != version_of(to, n))
    &&& forall|i: int|
        0 <= i < r.len() ==> #[trigger] r[i] == match version_of(from, keys[i]) {
            None => ChangeView::Added { name: keys[i], version: version_of(to, keys[i])->0 },
            Some(f) => ChangeView::VersionChanged { name: keys[i], from: f, to: version_of(to, keys[i])->0 },
        }
}

/// `r` is, by name in order, a removal for each package of `from` that
/// `to` lacks.
pub open spec fn departures(from: Seq<PackageManifest>, to: Seq<PackageManifest>, r: Seq<ChangeView>) -> bool {
    let keys = r.map_values(|c: ChangeView| change_name(c));
    &&& strictly_sorted(keys)
    &&& keys.to_set() == workspace(from).filter(|n: Seq<char>| !workspace(to).contains(n))
    &&& forall|i: int|
        0 <= i < r.len() ==> #[trigger] r[i] == (ChangeView::Removed {
            name: keys[i],
            version: version_of(from, keys[i])->0,
        })
}

/// The version of package `n` in `ms`.
fn version_of_exec<'a>(ms: &'a [PackageManifest], n: &str) -> (r: Option<&'a String>)
    ensures
        match r {
            Some(v) => version_of(ms@, n@) == Some(v@),
            None => version_of(ms@, n@) is None,
        },
{
    let mut i = ms.len();
    assert(ms@.take(i as int) =~= ms@);
    while i > 0
        invariant
            i <= ms@.len(),
            version_of(ms@, n@) == version_of(ms@.take(i as int), n@),
        decreases i,
    {
        assert(ms@.take(i as int).drop_last() =~= ms@.take(i - 1));
        if eq_str(ms[i - 1].name.as_str(), n) {
            return Some(&ms[i - 1].version);
        }
        i = i - 1;
    }
    None
}

/// A package named in `ms` has a version there.
proof fn lemma_named_has_version(ms: Seq<PackageManifest>, n: Seq<char>)
    ensures
        workspace(ms).contains(n) <==> version_of(ms, n) is Some,
    decreases ms.len(),
{
    if ms.len() > 0 {
        lemma_named_has_version(ms.drop_last(), n);
        assert(names_of(ms) =~= names_of(ms.drop_last()).push(ms.last().name@));
        names_of(ms.drop_last()).lemma_push_to_set_commute(ms.last().name@);
    } else {
        assert(names_of(ms).to_set() =~= Set::<Seq<char>>::empty());
    }
}

/// The distinct package names of `ms`, sorted.
fn sorted_names(ms: &[PackageManifest]) -> (r: Vec<String>)
    ensures
        strictly_sorted(views(r@)),
        views(r@).to_set() == workspace(ms@),
{
    let mut names: Vec<String> = Vec::new();
    let mut i: usize = 0;
    while i < ms.len()
        invariant
            i <= ms@.len(),
            views(names@) == names_of(ms@).take(i as int),
        decreases ms@.len() - i,
    {
        let ghost prev = names@;
        names.push(ms[i].name.clone());
        assert(views(names@) =~= views(prev).push(ms@[i as int].name@));
        assert(names_of(ms@).take(i + 1) =~= names_of(ms@).take(i as int).push(ms@[i as int].name@));
        assert(views(names@) =~= names_of(ms@).take(i + 1));
        i = i + 1;
    }
    assert(names_of(ms@).take(ms@.len() as int) =~= names_of(ms@));
    sorted_distinct(&names)
}

/// The added and changed packages, by name.
fn arrivals_of(from: &[PackageManifest], to: &[PackageManifest]) -> (r: Vec<PackageChange>)
    ensures
        arrivals(from@, to@, r@.map_values(|c: PackageChange| change_view(c))),
{
    let keys = sorted_names(to);
    let ghost ks = views(keys@);
    let ghost pred = |n: Seq<char>| version_of(from@, n) != version_of(to@, n);
    let ghost cv = |c: PackageChange| change_view(c);
    let ghost nm = |c: ChangeView| change_name(c);
    let mut out: Vec<PackageChange> = Vec::new();
    let mut t: usize = 0;
    while t < keys.len()
        invariant
            t <= keys@.len(),
            ks == views(keys@),
            strictly_sorted(ks),
            ks.to_set() == workspace(to@),
            pred == (|n: Seq<char>| version_of(from@, n) != version_of(to@, n)),
            cv == (|c: PackageChange| change_view(c)),
            nm == (|c: ChangeView| change_name(c)),
            strictly_sorted(out@.map_values(cv).map_values(nm)),
            out@.map_values(cv).map_values(nm).to_set() == ks.take(t as int).to_set().filter(pred),
            forall|a: int, b: int|
                #![trigger out@[a], ks[b]]
                0 <= a < out@.len() && t <= b < ks.len() ==> lex_lt(change_name(change_view(out@[a])), ks[b]),
            forall|a: int|
                0 <= a < out@.len() ==> {
                    let k = change_name(change_view(#[trigger] out@[a]));
                    change_view(out@[a]) == match version_of(from@, k) {
                        None => ChangeView::Added { name: k, version: version_of(to@, k)->0 },
                        Some(f) => ChangeView::VersionChanged { name: k, from: f, to: version_of(to@, k)->0 },
                    }
                },
        decreases keys@.len() - t,
    {
        let ghost old_out = out@;
        let ghost fk = out@.map_values(cv).map_values(nm);
        let ghost k = ks[t as int];
        assert(ks.take(t + 1) =~= ks.take(t as int).push(k));
        proof {
            ks.take(t as int).lemma_push_to_set_commute(k);
            assert(ks.to_set().contains(k));
            lemma_named_has_version(to@, k);
        }
        let name = &keys[t];
        let tv = match version_of_exec(to, name.as_str()) {
            Some(v) => v,
            None => {
                assert(false);
                return out;
            },
        };
        let fv = version_of_exec(from, name.as_str());
        let change = match fv {
            None => Some(PackageChange::Added { name: name.clone(), version: tv.clone() }),
            Some(f) => if eq_str(f.as_str(), tv.as_str()) {
                None
            } else {
                Some(PackageChange::VersionChanged { name: name.clone(), from: f.clone(), to: tv.clone() })
            },
        };
        match change {
            Some(c) => {
                out.push(c);
                let ghost nk = out@.map_values(cv).map_values(nm);
                assert(nk =~= fk.push(k));
                proof {
                    fk.lemma_push_to_set_commute(k);
                    assert forall|a: int, b: int| 0 <= a < b < nk.len() implies lex_lt(
                        #[trigger] nk[a],
                        #[trigger] nk[b],
                    ) by {
                        if b < fk.len() {
                            assert(nk[a] == fk[a] && nk[b] == fk[b]);
                        } else {
                            assert(nk[a] == change_name(change_view(old_out[a])));
                            assert(old_out[a] == out@[a]);
                        }
                    }
                    assert forall|a: int, b: int|
                        #![trigger out@[a], ks[b]]
                        0 <= a < out@.len() && t + 1 <= b < ks.len() implies lex_lt(
                        change_name(change_view(out@[a])),
                        ks[b],
                    ) by {
                        if a < old_out.len() {
                            assert(out@[a] == old_out[a]);
                        } else {
                            assert(lex_lt(ks[t as int], ks[b]));
                        }
                    }
                    assert forall|a: int| 0 <= a < out@.len() implies {
                        let kk = change_name(change_view(#[trigger] out@[a]));
                        change_view(out@[a]) == match version_of(from@, kk) {
                            None => ChangeView::Added { name: kk, version: version_of(to@, kk)->0 },
                            Some(f) => ChangeView::VersionChanged {
                                name: kk,
                                from: f,
                                to: version_of(to@, kk)->0,
                            },
                        }
                    } by {
                        if a < old_out.len() {
                            assert(out@[a] == old_out[a]);
                        }
                    }
                }
                assert(nk.to_set() =~= ks.take(t + 1).to_set().filter(pred));
            },
            None => {
                assert(ks.take(t as int).to_set().filter(pred) =~= ks.take(t + 1).to_set().filter(pred));
            },
        }
        t = t + 1;
    }
    assert(ks.take(ks.len() as int) =~= ks);
    let ghost fin = out@.map_values(cv);
    assert(fin.map_values(nm) =~= fin.map_values(|c: ChangeView| change_name(c)));
    assert(workspace(to@).filter(pred) =~= workspace(to@).filter(
        |n: Seq<char>| version_of(from@, n) != version_of(to@, n),
    ));
    assert forall|i: int| 0 <= i < fin.len() implies #[trigger] fin[i] == match version_of(
        from@,
        fin.map_values(nm)[i],
    ) {
        None => ChangeView::Added { name: fin.map_values(nm)[i], version: version_of(to@, fin.map_values(nm)[i])->0 },
        Some(f) => ChangeView::VersionChanged {
            name: fin.map_values(nm)[i],
            from: f,
            to: version_of(to@, fin.map_values(nm)[i])->0,
        },
    } by {
        assert(fin[i] == change_view(out@[i]));
    }
    out
}

/// The removed packages, by name.
fn departures_of(from: &[PackageManifest], to: &[PackageManifest]) -> (r: Vec<PackageChange>)
    ensures
        departures(from@, to@, r@.map_values(|c: PackageChange| change_view(c))),
{
    let keys = sorted_names(from);
    let ghost ks = views(keys@);
    let ghost pred = |n: Seq<char>| !workspace(to@).contains(n);
    let ghost cv = |c: PackageChange| change_view(c);
    let ghost nm = |c: ChangeView| change_name(c);
    let mut out: Vec<PackageChange> = Vec::new();
    let mut t: usize = 0;
    while t < keys.len()
        invariant
            t <= keys@.len(),
            ks == views(keys@),
            strictly_sorted(ks),
            ks.to_set() == workspace(from@),
            pred == (|n: Seq<char>| !workspace(to@).contains(n)),
            cv == (|c: PackageChange| change_view(c)),
            nm == (|c: ChangeView| change_name(c)),
            strictly_sorted(out@.map_values(cv).map_values(nm)),
            out@.map_values(cv).map_values(nm).to_set() == ks.take(t as int).to_set().filter(pred),
            forall|a: int, b: int|
                #![trigger out@[a], ks[b]]
                0 <= a < out@.len() && t <= b < ks.len() ==> lex_lt(change_name(change_view(out@[a])), ks[b]),
            forall|a: int|
                0 <= a < out@.len() ==> {
                    let k = change_name(change_view(#[trigger] out@[a]));
                    change_view(out@[a]) == (ChangeView::Removed { name: k, version: version_of(from@, k)->0 })
                },
        decreases keys@.len() - t,
    {
        let ghost old_out = out@;
        let ghost fk = out@.map_values(cv).map_values(nm);
        let ghost k = ks[t as int];
        assert(ks.take(t + 1) =~= ks.take(t as int).push(k));
        proof {
            ks.take(t as int).lemma_push_to_set_commute(k);
            assert(ks.to_set().contains(k));
            lemma_named_has_version(from@, k);
            lemma_named_has_version(to@, k);
        }
        let name = &keys[t];
        let fv = match version_of_exec(from, name.as_str()) {
            Some(v) => v,
            None => {
                assert(false);
                return out;
            },
        };
        if version_of_exec(to, name.as_str()).is_none() {
            out.push(PackageChange::Removed { name: name.clone(), version: fv.clone() });
            let ghost nk = out@.map_values(cv).map_values(nm);
            assert(nk =~= fk.push(k));
            proof {
                fk.lemma_push_to_set_commute(k);
                assert forall|a: int, b: int| 0 <= a < b < nk.len() implies lex_lt(
                    #[trigger] nk[a],
                    #[trigger] nk[b],
                ) by {
                    if b < fk.len() {
                        assert(nk[a] == fk[a] && nk[b] == fk[b]);
                    } else {
                        assert(nk[a] == change_name(change_view(old_out[a])));
                        assert(old_out[a] == out@[a]);
                    }
                }
                assert forall|a: int, b: int|
                    #![trigger out@[a], ks[b]]
                    0 <= a < out@.len() && t + 1 <= b < ks.len() implies lex_lt(
                    change_name(change_view(out@[a])),
                    ks[b],
                ) by {
                    if a < old_out.len() {
                        assert(out@[a] == old_out[a]);
                    } else {
                        assert(lex_lt(ks[t as int], ks[b]));
                    }
                }
                assert forall|a: int| 0 <= a < out@.len() implies {
                    let kk = change_name(change_view(#[trigger] out@[a]));
                    change_view(out@[a]) == (ChangeView::Removed { name: kk, version: version_of(from@, kk)->0 })
                } by {
                    if a < old_out.len() {
                        assert(out@[a] == old_out[a]);
                    }
                }
            }
            assert(nk.to_set() =~= ks.take(t + 1).to_set().filter(pred));
        } else {
            assert(ks.take(t as int).to_set().filter(pred) =~= ks.take(t + 1).to_set().filter(pred));
        }
        t = t + 1;
    }
    assert(ks.take(ks.len() as int) =~= ks);
    let ghost fin = out@.map_values(cv);
    assert(fin.map_values(nm) =~= fin.map_values(|c: ChangeView| change_name(c)));
    assert(workspace(from@).filter(pred) =~= workspace(from@).filter(
        |n: Seq<char>| !workspace(to@).contains(n),
    ));
    assert forall|i: int| 0 <= i < fin.len() implies #[trigger] fin[i] == (ChangeView::Removed {
        name: fin.map_values(nm)[i],
        version: version_of(from@, fin.map_values(nm)[i])->0,
    }) by {
        assert(fin[i] == change_view(out@[i]));
    }
    out
}

/// The package changes from `from` to `to`, keyed by name (a later
/// manifest of the same name wins): added and changed packages in name
/// order, then removed ones in name order.
pub fn diff(from: &[PackageManifest], to: &[PackageManifest]) -> (r: Vec<PackageChange>)
    ensures
        exists|k: int|
            0 <= k <= r@.len() && arrivals(from@, to@, #[trigger] change_views(r@).take(k))
                && departures(from@, to@, change_views(r@).skip(k)),
{
    let mut r = arrivals_of(from, to);
    let ghost k = r@.len() as int;
    let ghost a = r@.map_values(|c: PackageChange| change_view(c));
    let mut d = departures_of(from, to);
    let ghost dv = d@.map_values(|c: PackageChange| change_view(c));
    r.append(&mut d);
    assert(change_views(r@).take(k) =~= a);
    assert(change_views(r@).skip(k) =~= dv);
    r
}

} // verus!
