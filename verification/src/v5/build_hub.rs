//! The decisions of the build surface: package filters, the selection
//! and ordering of a workspace publish, and the counters and events of
//! the registry diff, drift fix and publish runs.
//!
//! The surrounding driver reads manifests, queries registries and runs
//! commands; it hands the outcomes to the functions here, which decide
//! what happens next and which event is reported.

use vstd::prelude::*;

use super::build::diff::{change_view, ChangeView, PackageChange};
use super::build::manifest::{Dep, Finding, FindingView, PackageManifest};
use super::build::registry::{diff_status, diff_status_spec};
use crate::text::{
    concat, contains_string, eq_str, find_char, first_index, lemma_first_index, string_of_range, to_chars, trim, trim_str,
    views,
};
use crate::storage::paths::{join_path, path_join};
use crate::v5::config::{WorkspaceConfig, WorkspaceRepo};
use crate::doc::DocValue;
use crate::v5::ops::git::{i32_to_string, signed_decimal};

verus! {

// ---------------------------------------------------------------------
// Glob patterns.
// ---------------------------------------------------------------------

/// Whether the glob `p` matches all of `t`: `*` matches any run of
/// characters (the empty one too), `?` exactly one character, and any
/// other character only itself.
pub open spec fn glob(p: Seq<char>, t: Seq<char>) -> bool
    decreases p.len() + t.len(),
{
    if p.len() == 0 {
        t.len() == 0
    } else if p[0] == '*' {
        glob(p.drop_first(), t) || (t.len() > 0 && glob(p, t.drop_first()))
    } else {
        t.len() > 0 && (p[0] == '?' || p[0] == t[0]) && glob(p.drop_first(), t.drop_first())
    }
}

/// `glob` on the suffixes `p[i..]` and `t[j..]`.
pub open spec fn glob_at(p: Seq<char>, t: Seq<char>, i: int, j: int) -> bool {
    glob(p.subrange(i, p.len() as int), t.subrange(j, t.len() as int))
}

proof fn lemma_glob_step(p: Seq<char>, t: Seq<char>, i: int, j: int)
    requires
        0 <= i < p.len(),
        0 <= j <= t.len(),
    ensures
        p[i] == '*' ==> (glob_at(p, t, i, j) == (glob_at(p, t, i + 1, j) || (j < t.len()
            && glob_at(p, t, i, j + 1)))),
        p[i] != '*' ==> (glob_at(p, t, i, j) == (j < t.len() && (p[i] == '?' || p[i] == t[j])
            && glob_at(p, t, i + 1, j + 1))),
{
    let ps = p.subrange(i, p.len() as int);
    let ts = t.subrange(j, t.len() as int);
    assert(ps.drop_first() =~= p.subrange(i + 1, p.len() as int));
    if j < t.len() {
        assert(ts.drop_first() =~= t.subrange(j + 1, t.len() as int));
    }
}

/// A lone `*` matches every name.
pub proof fn lemma_star_matches_all(t: Seq<char>)
    ensures
        glob(seq!['*'], t),
    decreases t.len(),
{
    let p = seq!['*'];
    assert(p.len() == 1 && p[0] == '*');
    assert(p.drop_first() =~= Seq::<char>::empty());
    if t.len() > 0 {
        lemma_star_matches_all(t.drop_first());
    } else {
        assert(glob(Seq::<char>::empty(), t));
    }
}

/// A pattern without `*` or `?` matches exactly the name it spells.
pub proof fn lemma_literal_glob(p: Seq<char>, t: Seq<char>)
    requires
        forall|i: int| 0 <= i < p.len() ==> p[i] != '*' && p[i] != '?',
    ensures
        glob(p, t) == (p == t),
    decreases p.len(),
{
    if p.len() == 0 {
        if t.len() == 0 {
            assert(p =~= t);
        }
    } else {
        assert forall|i: int| 0 <= i < p.drop_first().len() implies p.drop_first()[i] != '*' && p.drop_first()[i] != '?' by {
            assert(p.drop_first()[i] == p[i + 1]);
        }
        if t.len() > 0 {
            lemma_literal_glob(p.drop_first(), t.drop_first());
            if p[0] == t[0] && p.drop_first() == t.drop_first() {
                assert(p =~= seq![p[0]] + p.drop_first());
                assert(t =~= seq![t[0]] + t.drop_first());
            }
            if p == t {
                assert(p.drop_first() =~= t.drop_first());
            }
        }
    }
}

/// Whether `s` matches the glob `pattern` (`*` any run, `?` one
/// character).
pub fn glob_match(pattern: &str, s: &str) -> (b: bool)
    ensures
        b == glob(pattern@, s@),
{
    let p = to_chars(pattern);
    let t = to_chars(s);
    let n = p.len();
    let m = t.len();
    // `next[k]` answers the suffixes `p[i..]`, `t[k..]`; first for i == n.
    let mut next: Vec<bool> = Vec::new();
    let mut k: usize = 0;
    while k < m
        invariant
            k <= m == t@.len(),
            next@.len() == k,
            forall|q: int| 0 <= q < k ==> !next@[q],
        decreases m - k,
    {
        next.push(false);
        k = k + 1;
    }
    next.push(true);
    let width: usize = next.len();
    assert forall|q: int| 0 <= q <= m implies next@[q] == glob_at(p@, t@, n as int, q) by {
        assert(p@.subrange(n as int, n as int).len() == 0);
    }
    let mut i = n;
    while i > 0
        invariant
            i <= n == p@.len(),
            m == t@.len(),
            next@.len() == m + 1,
            width == m + 1,
            forall|q: int| 0 <= q <= m ==> next@[q] == glob_at(p@, t@, i as int, q),
        decreases i,
    {
        i = i - 1;
        let c = p[i];
        let mut cur: Vec<bool> = Vec::new();
        let mut z: usize = 0;
        while z < width
            invariant
                z <= width,
                cur@.len() == z,
            decreases width - z,
        {
            cur.push(false);
            z = z + 1;
        }
        let mut jj = width;
        while jj > 0
            invariant
                jj <= m + 1,
                i < n == p@.len(),
                c == p@[i as int],
                m == t@.len(),
                next@.len() == m + 1,
                cur@.len() == m + 1,
                forall|q: int| 0 <= q <= m ==> next@[q] == glob_at(p@, t@, i + 1, q),
                forall|q: int| jj <= q <= m ==> cur@[q] == glob_at(p@, t@, i as int, q),
            decreases jj,
        {
            let j = jj - 1;
            proof {
                lemma_glob_step(p@, t@, i as int, j as int);
            }
            let v = if c == '*' {
                next[j] || (j < m && cur[j + 1])
            } else {
                j < m && (c == '?' || c == t[j]) && next[j + 1]
            };
            cur.set(j, v);
            jj = j;
        }
        next = cur;
    }
    proof {
        assert(p@.subrange(0, n as int) =~= p@);
        assert(t@.subrange(0, m as int) =~= t@);
    }
    next[0]
}

// ---------------------------------------------------------------------
// Package filters.
// ---------------------------------------------------------------------

/// Whether some pattern of `pats` matches `name`.
pub open spec fn any_glob(pats: Seq<String>, name: Seq<char>) -> bool {
    exists|k: int| 0 <= k < pats.len() && #[trigger] glob(pats[k]@, name)
}

/// Whether some pattern of `patterns` matches `name`.
pub fn matches_any(patterns: &Vec<String>, name: &str) -> (b: bool)
    ensures
        b == any_glob(patterns@, name@),
{
    let mut k: usize = 0;
    while k < patterns.len()
        invariant
            k <= patterns@.len(),
            forall|q: int| 0 <= q < k ==> !glob(#[trigger] patterns@[q]@, name@),
        decreases patterns@.len() - k,
    {
        if glob_match(patterns[k].as_str(), name) {
            return true;
        }
        k = k + 1;
    }
    false
}

/// The view of an optional list of patterns.
pub open spec fn pats_view(p: Option<Vec<String>>) -> Option<Seq<String>> {
    match p {
        Some(v) => Some(v@),
        None => None,
    }
}

/// A package passes an optional filter when there is none, or when one
/// of its patterns matches the package's name.
pub open spec fn passes_spec(filter: Option<Seq<String>>, name: Seq<char>) -> bool {
    match filter {
        None => true,
        Some(p) => any_glob(p, name),
    }
}

/// Whether `name` passes the optional `filter` of the registry diff and
/// drift fix.
pub fn passes_filter(filter: &Option<Vec<String>>, name: &str) -> (b: bool)
    ensures
        b == passes_spec(pats_view(*filter), name@),
{
    match filter {
        Some(p) => matches_any(p, name),
        None => true,
    }
}

/// A package is chosen for a workspace publish when it is included (no
/// inclusion patterns, or one matches) and not excluded (an exclusion
/// pattern matches).
pub open spec fn chosen(inc_pats: Option<Seq<String>>, exc_pats: Option<Seq<String>>, name: Seq<char>) -> bool {
    passes_spec(inc_pats, name) && !(match exc_pats {
        None => false,
        Some(p) => any_glob(p, name),
    })
}

/// Whether `name` is chosen by the inclusion and exclusion patterns.
pub fn is_chosen(inc_pats: &Option<Vec<String>>, exc_pats: &Option<Vec<String>>, name: &str) -> (b: bool)
    ensures
        b == chosen(pats_view(*inc_pats), pats_view(*exc_pats), name@),
{
    let inc = passes_filter(inc_pats, name);
    let exc = match exc_pats {
        Some(p) => matches_any(p, name),
        None => false,
    };
    inc && !exc
}

// ---------------------------------------------------------------------
// Workspace publish: candidates and their selection.
// ---------------------------------------------------------------------

/// A workspace package with its registry status, as a publish run sees
/// it.
#[derive(Debug)]
pub struct PublishCandidate {
    pub name: String,
    pub local_version: String,
    /// `cargo` | `cabal` | `node` | ...
    pub build_system: String,
    /// `crates_io` | `hackage` | `npm` | ...
    pub registry: String,
    /// `ahead` | `stale` | `up_to_date` | `unpublished`.
    pub status: String,
    /// The package's dependencies that are workspace packages.
    pub deps: Vec<String>,
}

/// The first candidate named `n`.
pub open spec fn candidate_index(cs: Seq<PublishCandidate>, n: Seq<char>) -> Option<int>
    decreases cs.len(),
{
    if cs.len() == 0 {
        None
    } else if cs[0].name@ == n {
        Some(0)
    } else {
        match candidate_index(cs.drop_first(), n) {
            Some(i) => Some(i + 1),
            None => None,
        }
    }
}

/// The workspace dependencies of the first candidate named `n` (none
/// when there is no such candidate).
pub open spec fn deps_of(cs: Seq<PublishCandidate>, n: Seq<char>) -> Seq<Seq<char>> {
    match candidate_index(cs, n) {
        Some(i) => views(cs[i].deps@),
        None => Seq::empty(),
    }
}

/// The names the inclusion and exclusion patterns choose.
pub open spec fn initially_chosen(
    cs: Seq<PublishCandidate>,
    inc_pats: Option<Seq<String>>,
    exc_pats: Option<Seq<String>>,
) -> Set<Seq<char>> {
    Set::new(|n: Seq<char>| exists|i: int| 0 <= i < cs.len() && cs[i].name@ == n && chosen(inc_pats, exc_pats, n))
}

/// A set of names that holds the dependencies of each of its names.
pub open spec fn dep_closed(cs: Seq<PublishCandidate>, s: Set<Seq<char>>) -> bool {
    forall|n: Seq<char>, k: int| s.contains(n) && 0 <= k < deps_of(cs, n).len() ==> s.contains(
        #[trigger] deps_of(cs, n)[k],
    )
}

/// `s` holds `init` and is closed under dependencies.
pub open spec fn closes(cs: Seq<PublishCandidate>, init: Set<Seq<char>>, s: Set<Seq<char>>) -> bool {
    init.subset_of(s) && dep_closed(cs, s)
}

/// `s` is the least set that holds `init` and is closed under
/// dependencies: the names of `init` and everything they depend on,
/// directly or not.
pub open spec fn least_closure(cs: Seq<PublishCandidate>, init: Set<Seq<char>>, s: Set<Seq<char>>) -> bool {
    &&& closes(cs, init, s)
    &&& forall|t: Set<Seq<char>>| #[trigger] closes(cs, init, t) ==> s.subset_of(t)
}

/// Every name a candidate list mentions.
pub open spec fn universe(cs: Seq<PublishCandidate>) -> Seq<Seq<char>>
    decreases cs.len(),
{
    if cs.len() == 0 {
        Seq::empty()
    } else {
        universe(cs.drop_last()).push(cs.last().name@) + views(cs.last().deps@)
    }
}

proof fn lemma_universe(cs: Seq<PublishCandidate>, i: int)
    requires
        0 <= i < cs.len(),
    ensures
        universe(cs).contains(cs[i].name@),
        forall|k: int| 0 <= k < cs[i].deps@.len() ==> universe(cs).contains(#[trigger] cs[i].deps@[k]@),
    decreases cs.len(),
{
    let u = universe(cs);
    let pre = universe(cs.drop_last());
    let mid = pre.push(cs.last().name@);
    let tail = views(cs.last().deps@);
    assert(u == mid + tail);
    if i == cs.len() - 1 {
        assert(u[pre.len() as int] == cs[i].name@);
        assert forall|k: int| 0 <= k < cs[i].deps@.len() implies u.contains(#[trigger] cs[i].deps@[k]@) by {
            assert(u[mid.len() + k] == tail[k]);
        }
    } else {
        lemma_universe(cs.drop_last(), i);
        assert(cs.drop_last()[i] == cs[i]);
        let j = choose|j: int| 0 <= j < pre.len() && pre[j] == cs[i].name@;
        assert(u[j] == pre[j]);
        assert forall|k: int| 0 <= k < cs[i].deps@.len() implies u.contains(#[trigger] cs[i].deps@[k]@) by {
            assert(pre.contains(cs.drop_last()[i].deps@[k]@));
            let q = choose|q: int| 0 <= q < pre.len() && pre[q] == cs[i].deps@[k]@;
            assert(u[q] == pre[q]);
        }
    }
}

proof fn lemma_candidate_index(cs: Seq<PublishCandidate>, n: Seq<char>)
    ensures
        match candidate_index(cs, n) {
            Some(i) => 0 <= i < cs.len() && cs[i].name@ == n,
            None => forall|i: int| 0 <= i < cs.len() ==> cs[i].name@ != n,
        },
    decreases cs.len(),
{
    if cs.len() > 0 && cs[0].name@ != n {
        lemma_candidate_index(cs.drop_first(), n);
        if candidate_index(cs.drop_first(), n) is None {
            assert forall|i: int| 0 <= i < cs.len() implies cs[i].name@ != n by {
                if i > 0 {
                    assert(cs.drop_first()[i - 1] == cs[i]);
                }
            }
        }
    }
}

proof fn lemma_distinct_within(a: Seq<Seq<char>>, b: Seq<Seq<char>>)
    requires
        a.no_duplicates(),
        forall|x: Seq<char>| a.contains(x) ==> b.contains(x),
    ensures
        a.len() <= b.len(),
{
    broadcast use vstd::seq_lib::seq_to_set_is_finite;

    a.unique_seq_to_set();
    b.lemma_cardinality_of_set();
    assert(a.to_set().subset_of(b.to_set()));
    vstd::set_lib::lemma_len_subset(a.to_set(), b.to_set());
}

/// The position of the first candidate named `name`.
pub fn find_candidate(cs: &Vec<PublishCandidate>, name: &str) -> (r: Option<usize>)
    ensures
        match r {
            Some(i) => candidate_index(cs@, name@) == Some(i as int),
            None => candidate_index(cs@, name@) is None,
        },
{
    let mut i: usize = 0;
    assert(cs@.skip(0) =~= cs@);
    while i < cs.len()
        invariant
            i <= cs@.len(),
            candidate_index(cs@, name@) == match candidate_index(cs@.skip(i as int), name@) {
                Some(j) => Some(j + i),
                None => None::<int>,
            },
        decreases cs@.len() - i,
    {
        assert(cs@.skip(i as int).drop_first() =~= cs@.skip(i + 1));
        assert(cs@.skip(i as int)[0] == cs@[i as int]);
        if crate::text::eq_str(cs[i].name.as_str(), name) {
            return Some(i);
        }
        i = i + 1;
    }
    None
}

/// The packages a workspace publish takes: those the inclusion and
/// exclusion patterns choose, and every workspace package they depend
/// on, directly or not. Each name comes once.
pub fn select_for_publish(
    cs: &Vec<PublishCandidate>,
    inc_pats: &Option<Vec<String>>,
    exc_pats: &Option<Vec<String>>,
) -> (r: Vec<String>)
    ensures
        views(r@).no_duplicates(),
        least_closure(cs@, initially_chosen(cs@, pats_view(*inc_pats), pats_view(*exc_pats)), views(r@).to_set()),
{
    let ghost inc = pats_view(*inc_pats);
    let ghost exc = pats_view(*exc_pats);
    let ghost init = initially_chosen(cs@, inc, exc);
    let ghost u = universe(cs@);
    let mut sel: Vec<String> = Vec::new();
    let mut i: usize = 0;
    while i < cs.len()
        invariant
            i <= cs@.len(),
            inc == pats_view(*inc_pats),
            exc == pats_view(*exc_pats),
            init == initially_chosen(cs@, inc, exc),
            u == universe(cs@),
            views(sel@).no_duplicates(),
            forall|x: Seq<char>| views(sel@).contains(x) <==> (exists|q: int| 0 <= q < i && cs@[q].name@ == x
                && chosen(inc, exc, x)),
        decreases cs@.len() - i,
    {
        let name = &cs[i].name;
        let ghost before = views(sel@);
        let ch = is_chosen(inc_pats, exc_pats, name.as_str());
        if ch && !contains_string(&sel, name.as_str()) {
            sel.push(name.clone());
            assert(views(sel@) =~= before.push(name@));
        }
        proof {
            let nm = cs@[i as int].name@;
            assert forall|x: Seq<char>| views(sel@).contains(x) <==> (exists|q: int| 0 <= q < i + 1
                && cs@[q].name@ == x && chosen(inc, exc, x)) by {
                if views(sel@).contains(x) {
                    if before.contains(x) {
                        let q = choose|q: int| 0 <= q < i && cs@[q].name@ == x && chosen(inc, exc, x);
                        assert(0 <= q < i + 1 && cs@[q].name@ == x && chosen(inc, exc, x));
                    } else {
                        let j = choose|j: int| 0 <= j < views(sel@).len() && views(sel@)[j] == x;
                        assert(j == before.len());
                        assert(x == nm);
                        assert(cs@[i as int].name@ == x && chosen(inc, exc, x));
                    }
                }
                if exists|q: int| 0 <= q < i + 1 && cs@[q].name@ == x && chosen(inc, exc, x) {
                    let q = choose|q: int| 0 <= q < i + 1 && cs@[q].name@ == x && chosen(inc, exc, x);
                    if q < i {
                        assert(before.contains(x));
                    } else {
                        assert(x == nm);
                        if !before.contains(x) {
                            assert(views(sel@)[before.len() as int] == x);
                        }
                    }
                    if before.contains(x) {
                        let j = choose|j: int| 0 <= j < before.len() && before[j] == x;
                        assert(views(sel@)[j] == before[j]);
                    }
                }
            }
        }
        i = i + 1;
    }
    proof {
        assert(views(sel@).to_set() =~= init);
        assert forall|x: Seq<char>| views(sel@).contains(x) implies u.contains(x) by {
            let q = choose|q: int| 0 <= q < cs@.len() && cs@[q].name@ == x && chosen(inc, exc, x);
            lemma_universe(cs@, q);
        }
    }
    let mut k: usize = 0;
    while k < sel.len()
        invariant
            k <= sel@.len(),
            init == initially_chosen(cs@, inc, exc),
            u == universe(cs@),
            views(sel@).no_duplicates(),
            init.subset_of(views(sel@).to_set()),
            forall|x: Seq<char>| views(sel@).contains(x) ==> u.contains(x),
            forall|t: Set<Seq<char>>| #[trigger] closes(cs@, init, t) ==> views(sel@).to_set().subset_of(t),
            forall|q: int, d: int| 0 <= q < k && 0 <= d < deps_of(cs@, sel@[q]@).len() ==> views(sel@).contains(
                #[trigger] deps_of(cs@, sel@[q]@)[d],
            ),
        decreases u.len() - k,
    {
        proof {
            lemma_distinct_within(views(sel@), u);
        }
        let ghost here = sel@[k as int]@;
        match find_candidate(cs, sel[k].as_str()) {
            Some(ci) => {
                proof {
                    lemma_candidate_index(cs@, here);
                    lemma_universe(cs@, ci as int);
                }
                let deps = &cs[ci].deps;
                let mut d: usize = 0;
                while d < deps.len()
                    invariant
                        d <= deps@.len(),
                        k < sel@.len(),
                        here == sel@[k as int]@,
                        ci < cs@.len(),
                        candidate_index(cs@, here) == Some(ci as int),
                        deps == &cs@[ci as int].deps,
                        forall|q: int| 0 <= q < deps@.len() ==> u.contains(#[trigger] deps@[q]@),
                        init == initially_chosen(cs@, inc, exc),
                        u == universe(cs@),
                        views(sel@).no_duplicates(),
                        init.subset_of(views(sel@).to_set()),
                        forall|x: Seq<char>| views(sel@).contains(x) ==> u.contains(x),
                        forall|t: Set<Seq<char>>| #[trigger] closes(cs@, init, t) ==> views(sel@).to_set().subset_of(t),
                        forall|q: int, e: int| 0 <= q < k && 0 <= e < deps_of(cs@, sel@[q]@).len() ==> views(sel@).contains(
                            #[trigger] deps_of(cs@, sel@[q]@)[e],
                        ),
                        forall|e: int| 0 <= e < d ==> views(sel@).contains(#[trigger] deps@[e]@),
                    decreases deps@.len() - d,
                {
                    if !contains_string(&sel, deps[d].as_str()) {
                        let ghost before = sel@;
                        sel.push(deps[d].clone());
                        proof {
                            assert(views(sel@) =~= views(before).push(deps@[d as int]@));
                            assert forall|q: int| 0 <= q < before.len() implies sel@[q] == before[q] by {}
                            assert forall|x: Seq<char>| views(before).contains(x) implies views(sel@).contains(x) by {
                                let j = choose|j: int| 0 <= j < views(before).len() && views(before)[j] == x;
                                assert(views(sel@)[j] == views(before)[j]);
                            }
                            assert(init.subset_of(views(sel@).to_set()));
                            assert forall|t: Set<Seq<char>>| #[trigger] closes(cs@, init, t) implies views(
                                sel@,
                            ).to_set().subset_of(t) by {
                                assert(views(before).to_set().subset_of(t));
                                assert(views(before)[k as int] == here);
                                assert(views(before).contains(here));
                                assert(t.contains(here));
                                assert(deps_of(cs@, here) == views(deps@));
                                assert(deps_of(cs@, here)[d as int] == deps@[d as int]@);
                                assert forall|x: Seq<char>| views(sel@).to_set().contains(x) implies t.contains(x) by {
                                    if x != deps@[d as int]@ {
                                        assert(views(before).contains(x));
                                    }
                                }
                            }
                            assert forall|q: int, e: int| 0 <= q < k && 0 <= e < deps_of(cs@, sel@[q]@).len() implies views(
                                sel@,
                            ).contains(#[trigger] deps_of(cs@, sel@[q]@)[e]) by {
                                assert(sel@[q] == before[q]);
                                let y = deps_of(cs@, before[q]@)[e];
                                assert(views(before).contains(y));
                                let j = choose|j: int| 0 <= j < views(before).len() && views(before)[j] == y;
                                assert(views(sel@)[j] == views(before)[j]);
                            }
                            assert forall|e: int| 0 <= e < d + 1 implies views(sel@).contains(#[trigger] deps@[e]@) by {
                                if e < d {
                                    assert(views(before).contains(deps@[e]@));
                                } else {
                                    assert(views(sel@)[before.len() as int] == deps@[e]@);
                                }
                            }
                        }
                    }
                    d = d + 1;
                }
                proof {
                    assert(deps_of(cs@, here) == views(deps@));
                    assert forall|q: int, e: int| 0 <= q < k + 1 && 0 <= e < deps_of(cs@, sel@[q]@).len() implies views(
                        sel@,
                    ).contains(#[trigger] deps_of(cs@, sel@[q]@)[e]) by {
                        if q == k {
                            assert(deps_of(cs@, sel@[q]@)[e] == deps@[e]@);
                        }
                    }
                }
            },
            None => {
                proof {
                    assert(deps_of(cs@, here).len() == 0);
                }
            },
        }
        k = k + 1;
    }
    proof {
        assert forall|n: Seq<char>, e: int| views(sel@).to_set().contains(n) && 0 <= e < deps_of(cs@, n).len() implies views(
            sel@,
        ).to_set().contains(#[trigger] deps_of(cs@, n)[e]) by {
            let q = choose|q: int| 0 <= q < views(sel@).len() && views(sel@)[q] == n;
            assert(sel@[q]@ == n);
        }
    }
    sel
}

// ---------------------------------------------------------------------
// Events.
// ---------------------------------------------------------------------

/// An `org/name` reference as it goes on the wire.
#[derive(Debug, Clone)]
pub struct RepoRefWire {
    pub org: String,
    pub name: String,
}

/// What the build surface reports.
#[derive(Debug)]
pub enum BuildEvent {
    PackageManifest { reference: RepoRefWire, kind: String, name: String, version: String, deps: Vec<Dep> },
    AnalyzeFinding { finding: Finding },
    ValidateOk { name: String, total: u32 },
    ValidateFailed { name: String, total: u32, failed: u32 },
    NameMismatch { reference: RepoRefWire, manifest_name: String },
    PackageDiffEntry { change: PackageChange },
    RegistryDiffEntry {
        package_name: String,
        build_system: String,
        local_version: String,
        published_version: Option<String>,
        registry: String,
        status: String,
    },
    RegistryDiffSummary {
        name: String,
        total: u32,
        ahead: u32,
        stale: u32,
        up_to_date: u32,
        unpublished: u32,
        errored: u32,
    },
    VersionBumped { reference: RepoRefWire, old: String, new: String },
    PackagePublished { reference: RepoRefWire, channel: String },
    ReleaseCreated { reference: RepoRefWire, tag: String },
    ReleaseSummary { name: String, total: u32, ok: u32, errored: u32 },
    DistInit { reference: Option<RepoRefWire>, path: String, created: bool },
    DistShow { reference: Option<RepoRefWire>, path: String, content: Option<String> },
    BinstallInit { path: String, modified: bool },
    BrewFormula { name: String, version: String, dry_run: bool, written_to: Option<String>, content: String },
    ExecOutput { reference: Option<RepoRefWire>, path: String, exit_code: i32, stdout: String, stderr: String },
    ExecSummary { name: String, total: u32, ok: u32, errored: u32 },
    DriftFixed { package_name: String, old_version: String, new_version: String, build_system: String, dry_run: bool },
    DriftSummary { total_checked: u32, drifted: u32, fixed: u32, dry_run: bool },
    PublishStep {
        package_name: String,
        version: String,
        registry: String,
        action: String,
        error: Option<String>,
        dry_run: bool,
    },
    PublishSummary { total: u32, published: u32, failed: u32, skipped: u32, auto_bumped: u32 },
    Error { code: Option<String>, message: String },
}

/// The view of an optional string.
pub open spec fn ostr(o: Option<String>) -> Option<Seq<char>> {
    match o {
        Some(s) => Some(s@),
        None => None,
    }
}

/// The view of an optional reference.
pub open spec fn oref(o: Option<RepoRefWire>) -> Option<(Seq<char>, Seq<char>)> {
    match o {
        Some(r) => Some((r.org@, r.name@)),
        None => None,
    }
}

/// A build event as plain values.
pub enum BuildEventView {
    PackageManifest { reference: (Seq<char>, Seq<char>), kind: Seq<char>, name: Seq<char>, version: Seq<char>, deps: Seq<Dep> },
    AnalyzeFinding { finding: FindingView },
    ValidateOk { name: Seq<char>, total: u32 },
    ValidateFailed { name: Seq<char>, total: u32, failed: u32 },
    NameMismatch { reference: (Seq<char>, Seq<char>), manifest_name: Seq<char> },
    PackageDiffEntry { change: ChangeView },
    RegistryDiffEntry {
        package_name: Seq<char>,
        build_system: Seq<char>,
        local_version: Seq<char>,
        published_version: Option<Seq<char>>,
        registry: Seq<char>,
        status: Seq<char>,
    },
    RegistryDiffSummary {
        name: Seq<char>,
        total: u32,
        ahead: u32,
        stale: u32,
        up_to_date: u32,
        unpublished: u32,
        errored: u32,
    },
    VersionBumped { reference: (Seq<char>, Seq<char>), old: Seq<char>, new: Seq<char> },
    PackagePublished { reference: (Seq<char>, Seq<char>), channel: Seq<char> },
    ReleaseCreated { reference: (Seq<char>, Seq<char>), tag: Seq<char> },
    ReleaseSummary { name: Seq<char>, total: u32, ok: u32, errored: u32 },
    DistInit { reference: Option<(Seq<char>, Seq<char>)>, path: Seq<char>, created: bool },
    DistShow { reference: Option<(Seq<char>, Seq<char>)>, path: Seq<char>, content: Option<Seq<char>> },
    BinstallInit { path: Seq<char>, modified: bool },
    BrewFormula { name: Seq<char>, version: Seq<char>, dry_run: bool, written_to: Option<Seq<char>>, content: Seq<char> },
    ExecOutput {
        reference: Option<(Seq<char>, Seq<char>)>,
        path: Seq<char>,
        exit_code: i32,
        stdout: Seq<char>,
        stderr: Seq<char>,
    },
    ExecSummary { name: Seq<char>, total: u32, ok: u32, errored: u32 },
    DriftFixed {
        package_name: Seq<char>,
        old_version: Seq<char>,
        new_version: Seq<char>,
        build_system: Seq<char>,
        dry_run: bool,
    },
    DriftSummary { total_checked: u32, drifted: u32, fixed: u32, dry_run: bool },
    PublishStep {
        package_name: Seq<char>,
        version: Seq<char>,
        registry: Seq<char>,
        action: Seq<char>,
        error: Option<Seq<char>>,
        dry_run: bool,
    },
    PublishSummary { total: u32, published: u32, failed: u32, skipped: u32, auto_bumped: u32 },
    Error { code: Option<Seq<char>>, message: Seq<char> },
}

impl View for BuildEvent {
    type V = BuildEventView;

    open spec fn view(&self) -> BuildEventView {
        match self {
            BuildEvent::PackageManifest { reference, kind, name, version, deps } => BuildEventView::PackageManifest {
                reference: (reference.org@, reference.name@),
                kind: kind@,
                name: name@,
                version: version@,
                deps: deps@,
            },
            BuildEvent::AnalyzeFinding { finding } => BuildEventView::AnalyzeFinding { finding: finding@ },
            BuildEvent::ValidateOk { name, total } => BuildEventView::ValidateOk { name: name@, total: *total },
            BuildEvent::ValidateFailed { name, total, failed } => BuildEventView::ValidateFailed {
                name: name@,
                total: *total,
                failed: *failed,
            },
            BuildEvent::NameMismatch { reference, manifest_name } => BuildEventView::NameMismatch {
                reference: (reference.org@, reference.name@),
                manifest_name: manifest_name@,
            },
            BuildEvent::PackageDiffEntry { change } => BuildEventView::PackageDiffEntry { change: change_view(*change) },
            BuildEvent::RegistryDiffEntry {
                package_name,
                build_system,
                local_version,
                published_version,
                registry,
                status,
            } => BuildEventView::RegistryDiffEntry {
                package_name: package_name@,
                build_system: build_system@,
                local_version: local_version@,
                published_version: ostr(*published_version),
                registry: registry@,
                status: status@,
            },
            BuildEvent::RegistryDiffSummary { name, total, ahead, stale, up_to_date, unpublished, errored } =>
                BuildEventView::RegistryDiffSummary {
                name: name@,
                total: *total,
                ahead: *ahead,
                stale: *stale,
                up_to_date: *up_to_date,
                unpublished: *unpublished,
                errored: *errored,
            },
            BuildEvent::VersionBumped { reference, old, new } => BuildEventView::VersionBumped {
                reference: (reference.org@, reference.name@),
                old: old@,
                new: new@,
            },
            BuildEvent::PackagePublished { reference, channel } => BuildEventView::PackagePublished {
                reference: (reference.org@, reference.name@),
                channel: channel@,
            },
            BuildEvent::ReleaseCreated { reference, tag } => BuildEventView::ReleaseCreated {
                reference: (reference.org@, reference.name@),
                tag: tag@,
            },
            BuildEvent::ReleaseSummary { name, total, ok, errored } => BuildEventView::ReleaseSummary {
                name: name@,
                total: *total,
                ok: *ok,
                errored: *errored,
            },
            BuildEvent::DistInit { reference, path, created } => BuildEventView::DistInit {
                reference: oref(*reference),
                path: path@,
                created: *created,
            },
            BuildEvent::DistShow { reference, path, content } => BuildEventView::DistShow {
                reference: oref(*reference),
                path: path@,
                content: ostr(*content),
            },
            BuildEvent::BinstallInit { path, modified } => BuildEventView::BinstallInit {
                path: path@,
                modified: *modified,
            },
            BuildEvent::BrewFormula { name, version, dry_run, written_to, content } => BuildEventView::BrewFormula {
                name: name@,
                version: version@,
                dry_run: *dry_run,
                written_to: ostr(*written_to),
                content: content@,
            },
            BuildEvent::ExecOutput { reference, path, exit_code, stdout, stderr } => BuildEventView::ExecOutput {
                reference: oref(*reference),
                path: path@,
                exit_code: *exit_code,
                stdout: stdout@,
                stderr: stderr@,
            },
            BuildEvent::ExecSummary { name, total, ok, errored } => BuildEventView::ExecSummary {
                name: name@,
                total: *total,
                ok: *ok,
                errored: *errored,
            },
            BuildEvent::DriftFixed { package_name, old_version, new_version, build_system, dry_run } =>
                BuildEventView::DriftFixed {
                package_name: package_name@,
                old_version: old_version@,
                new_version: new_version@,
                build_system: build_system@,
                dry_run: *dry_run,
            },
            BuildEvent::DriftSummary { total_checked, drifted, fixed, dry_run } => BuildEventView::DriftSummary {
                total_checked: *total_checked,
                drifted: *drifted,
                fixed: *fixed,
                dry_run: *dry_run,
            },
            BuildEvent::PublishStep { package_name, version, registry, action, error, dry_run } =>
                BuildEventView::PublishStep {
                package_name: package_name@,
                version: version@,
                registry: registry@,
                action: action@,
                error: ostr(*error),
                dry_run: *dry_run,
            },
            BuildEvent::PublishSummary { total, published, failed, skipped, auto_bumped } =>
                BuildEventView::PublishSummary {
                total: *total,
                published: *published,
                failed: *failed,
                skipped: *skipped,
                auto_bumped: *auto_bumped,
            },
            BuildEvent::Error { code, message } => BuildEventView::Error { code: ostr(*code), message: message@ },
        }
    }
}

/// An error event with a code.
pub fn err_event(code: &str, message: String) -> (e: BuildEvent)
    ensures
        e@ == (BuildEventView::Error { code: Some(code@), message: message@ }),
{
    BuildEvent::Error { code: Some(code.to_string()), message }
}

// ---------------------------------------------------------------------
// Workspace members.
// ---------------------------------------------------------------------

/// A workspace entry's repo (org, name) and directory name: a shorthand
/// splits at its first `/` (one without a `/` names no repo); an object
/// gives both.
pub open spec fn entry_parts(entry: WorkspaceRepo) -> Option<(Seq<char>, Seq<char>, Seq<char>)> {
    match entry {
        WorkspaceRepo::Shorthand(s) => match first_index(s@, '/') {
            Some(i) => Some((s@.take(i), s@.skip(i + 1), s@.skip(i + 1))),
            None => None,
        },
        WorkspaceRepo::Object { reference, dir } => Some((reference.org.0@, reference.name.0@, dir@)),
    }
}

/// The members of a workspace at `ws_path`: each entry that names a
/// repo, with its checkout directory, in order.
pub open spec fn members_spec(ws_path: Seq<char>, entries: Seq<WorkspaceRepo>) -> Seq<
    (Seq<char>, Seq<char>, Seq<char>),
>
    decreases entries.len(),
{
    if entries.len() == 0 {
        Seq::empty()
    } else {
        let prev = members_spec(ws_path, entries.drop_last());
        match entry_parts(entries.last()) {
            Some(p) => prev.push((p.0, p.1, path_join(ws_path, p.2))),
            None => prev,
        }
    }
}

/// A member as (org, name, checkout directory).
pub open spec fn member_view(m: (RepoRefWire, String)) -> (Seq<char>, Seq<char>, Seq<char>) {
    (m.0.org@, m.0.name@, m.1@)
}

/// The parts of one workspace entry.
fn entry_parts_exec(entry: &WorkspaceRepo) -> (r: Option<(String, String, String)>)
    ensures
        match r {
            Some(p) => entry_parts(*entry) == Some((p.0@, p.1@, p.2@)),
            None => entry_parts(*entry) is None,
        },
{
    match entry {
        WorkspaceRepo::Shorthand(s) => {
            let v = to_chars(s.as_str());
            match find_char(&v, 0, v.len(), '/') {
                Some(i) => {
                    assert(v@.subrange(0, v@.len() as int) =~= s@);
                    let o = string_of_range(&v, 0, i);
                    let n = string_of_range(&v, i + 1, v.len());
                    assert(v@.subrange(0, i as int) =~= s@.take(i as int));
                    assert(v@.subrange(i + 1, v@.len() as int) =~= s@.skip(i + 1));
                    let d = n.clone();
                    Some((o, n, d))
                },
                None => {
                    assert(v@.subrange(0, v@.len() as int) =~= s@);
                    None
                },
            }
        },
        WorkspaceRepo::Object { reference, dir } => Some(
            (reference.org.0.clone(), reference.name.0.clone(), dir.clone()),
        ),
    }
}

/// The members of workspace `name`: every entry that names a repo, with
/// its checkout directory under the workspace path; an error when the
/// workspace is not configured.
pub fn workspace_members(ws: Option<&WorkspaceConfig>, name: &str) -> (r: Result<Vec<(RepoRefWire, String)>, String>)
    ensures
        match ws {
            None => r matches Err(e) && e@ == "workspace '"@ + name@ + "' not found"@,
            Some(w) => r matches Ok(v) && v@.map_values(|m: (RepoRefWire, String)| member_view(m)) == members_spec(
                w.path.0@,
                w.repos@,
            ),
        },
{
    let w = match ws {
        Some(w) => w,
        None => {
            let a = concat("workspace '", name);
            return Err(concat(a.as_str(), "' not found"));
        },
    };
    let mut out: Vec<(RepoRefWire, String)> = Vec::new();
    let mut i: usize = 0;
    while i < w.repos.len()
        invariant
            i <= w.repos@.len(),
            out@.map_values(|m: (RepoRefWire, String)| member_view(m)) == members_spec(
                w.path.0@,
                w.repos@.take(i as int),
            ),
        decreases w.repos@.len() - i,
    {
        assert(w.repos@.take(i + 1).drop_last() =~= w.repos@.take(i as int));
        assert(w.repos@.take(i + 1).last() == w.repos@[i as int]);
        let ghost before = out@.map_values(|m: (RepoRefWire, String)| member_view(m));
        match entry_parts_exec(&w.repos[i]) {
            Some((org, rname, dir)) => {
                let path = join_path(w.path.0.as_str(), dir.as_str());
                out.push((RepoRefWire { org, name: rname }, path));
                assert(out@.map_values(|m: (RepoRefWire, String)| member_view(m)) =~= before.push(
                    member_view(out@.last()),
                ));
            },
            None => {},
        }
        i = i + 1;
    }
    assert(w.repos@.take(w.repos@.len() as int) =~= w.repos@);
    Ok(out)
}

/// The checkout directory of `org/name` in one workspace: the first
/// entry naming that repo.
pub open spec fn dir_in_entries(ws_path: Seq<char>, entries: Seq<WorkspaceRepo>, org: Seq<char>, name: Seq<char>) -> Option<
    Seq<char>,
>
    decreases entries.len(),
{
    if entries.len() == 0 {
        None
    } else {
        match entry_parts(entries[0]) {
            Some(p) => if p.0 == org && p.1 == name {
                Some(path_join(ws_path, p.2))
            } else {
                dir_in_entries(ws_path, entries.drop_first(), org, name)
            },
            None => dir_in_entries(ws_path, entries.drop_first(), org, name),
        }
    }
}

/// The checkout directory of `org/name`: the first workspace, in order,
/// that lists it.
pub open spec fn dir_in_workspaces(wss: Seq<WorkspaceConfig>, org: Seq<char>, name: Seq<char>) -> Option<Seq<char>>
    decreases wss.len(),
{
    if wss.len() == 0 {
        None
    } else {
        match dir_in_entries(wss[0].path.0@, wss[0].repos@, org, name) {
            Some(d) => Some(d),
            None => dir_in_workspaces(wss.drop_first(), org, name),
        }
    }
}

fn dir_in_workspace(w: &WorkspaceConfig, org: &str, name: &str) -> (r: Option<String>)
    ensures
        match r {
            Some(d) => dir_in_entries(w.path.0@, w.repos@, org@, name@) == Some(d@),
            None => dir_in_entries(w.path.0@, w.repos@, org@, name@) is None,
        },
{
    let mut i: usize = 0;
    assert(w.repos@.skip(0) =~= w.repos@);
    while i < w.repos.len()
        invariant
            i <= w.repos@.len(),
            dir_in_entries(w.path.0@, w.repos@, org@, name@) == dir_in_entries(
                w.path.0@,
                w.repos@.skip(i as int),
                org@,
                name@,
            ),
        decreases w.repos@.len() - i,
    {
        assert(w.repos@.skip(i as int).drop_first() =~= w.repos@.skip(i + 1));
        assert(w.repos@.skip(i as int)[0] == w.repos@[i as int]);
        match entry_parts_exec(&w.repos[i]) {
            Some((o, n, d)) => {
                if eq_str(o.as_str(), org) && eq_str(n.as_str(), name) {
                    return Some(join_path(w.path.0.as_str(), d.as_str()));
                }
            },
            None => {},
        }
        i = i + 1;
    }
    None
}

/// The checkout directory of `org/name` in the configured workspaces
/// (taken in order): the first entry that lists it, or the error that no
/// workspace does.
pub fn resolve_single_repo_dir(workspaces: &Vec<WorkspaceConfig>, org: &str, name: &str) -> (r: Result<String, String>)
    ensures
        match dir_in_workspaces(workspaces@, org@, name@) {
            Some(d) => r matches Ok(x) && x@ == d,
            None => r matches Err(e) && e@ == "no workspace lists "@ + org@ + "/"@ + name@,
        },
{
    let mut i: usize = 0;
    assert(workspaces@.skip(0) =~= workspaces@);
    while i < workspaces.len()
        invariant
            i <= workspaces@.len(),
            dir_in_workspaces(workspaces@, org@, name@) == dir_in_workspaces(workspaces@.skip(i as int), org@, name@),
        decreases workspaces@.len() - i,
    {
        assert(workspaces@.skip(i as int).drop_first() =~= workspaces@.skip(i + 1));
        assert(workspaces@.skip(i as int)[0] == workspaces@[i as int]);
        match dir_in_workspace(&workspaces[i], org, name) {
            Some(d) => {
                return Ok(d);
            },
            None => {},
        }
        i = i + 1;
    }
    let a = concat("no workspace lists ", org);
    let b = concat(a.as_str(), "/");
    Err(concat(b.as_str(), name))
}

/// The outcome of validating a workspace's manifests: `total` members
/// (counted up to `u32::MAX`), `failed` of them unreadable.
pub fn validate_outcome(name: String, members: usize, failed: u32) -> (e: BuildEvent)
    ensures
        failed == 0 ==> e@ == (BuildEventView::ValidateOk {
            name: name@,
            total: if members > u32::MAX { u32::MAX } else { members as u32 },
        }),
        failed != 0 ==> e@ == (BuildEventView::ValidateFailed {
            name: name@,
            total: if members > u32::MAX { u32::MAX } else { members as u32 },
            failed,
        }),
{
    let total: u32 = if members > 4294967295usize {
        u32::MAX
    } else {
        members as u32
    };
    if failed == 0 {
        BuildEvent::ValidateOk { name, total }
    } else {
        BuildEvent::ValidateFailed { name, total, failed }
    }
}

/// A member whose manifest names the package otherwise than the repo
/// (an unnamed manifest is no mismatch).
pub fn name_mismatch(reference: RepoRefWire, manifest_name: String) -> (e: Option<BuildEvent>)
    ensures
        (manifest_name@.len() > 0 && manifest_name@ != reference.name@) ==> (e matches Some(ev) && ev@ == (
        BuildEventView::NameMismatch {
            reference: (reference.org@, reference.name@),
            manifest_name: manifest_name@,
        })),
        !(manifest_name@.len() > 0 && manifest_name@ != reference.name@) ==> e is None,
{
    if !manifest_name.as_str().is_empty() && !eq_str(manifest_name.as_str(), reference.name.as_str()) {
        Some(BuildEvent::NameMismatch { reference, manifest_name })
    } else {
        None
    }
}

// ---------------------------------------------------------------------
// Bumping, publishing and releasing one repo.
// ---------------------------------------------------------------------

/// What a bump moves to: the explicit target version, else the bump
/// kind, else `patch`.
pub fn bump_kind_or_target(to: Option<&str>, bump: Option<&str>) -> (s: String)
    ensures
        s@ == match (to, bump) {
            (Some(t), _) => t@,
            (None, Some(k)) => k@,
            (None, None) => "patch"@,
        },
{
    match (to, bump) {
        (Some(t), _) => t.to_string(),
        (None, Some(k)) => k.to_string(),
        (None, None) => "patch".to_string(),
    }
}

/// The commit message of a version bump.
pub fn bump_commit_message(new: &str) -> (s: String)
    ensures
        s@ == "chore: bump version to "@ + new@,
{
    concat("chore: bump version to ", new)
}

/// The tag of a released version.
pub fn version_tag(new: &str) -> (s: String)
    ensures
        s@ == "v"@ + new@,
{
    concat("v", new)
}

/// The secret of a direct publish's token on `channel`, for the three
/// channels a single repo publishes to.
pub open spec fn direct_secret_spec(channel: Seq<char>) -> Option<Seq<char>> {
    if channel == "crates.io"@ {
        Some("cargo/token"@)
    } else if channel == "npm"@ {
        Some("npm/token"@)
    } else if channel == "pypi"@ {
        Some("pypi/token"@)
    } else {
        None
    }
}

/// The secret that holds a direct publish's token (under `secrets://`):
/// one of the three channels a single repo publishes to, or the
/// `unknown_channel` error naming the channel.
pub fn publish_secret_key(channel: &str) -> (r: Result<&'static str, BuildEvent>)
    ensures
        match direct_secret_spec(channel@) {
            Some(k) => r matches Ok(x) && x@ == k,
            None => r matches Err(e) && e@ == (BuildEventView::Error {
                code: Some("unknown_channel"@),
                message: channel@,
            }),
        },
{
    if eq_str(channel, "crates.io") {
        Ok("cargo/token")
    } else if eq_str(channel, "npm") {
        Ok("npm/token")
    } else if eq_str(channel, "pypi") {
        Ok("pypi/token")
    } else {
        Err(err_event("unknown_channel", channel.to_string()))
    }
}

/// The error for a publish whose token secret is absent.
pub fn missing_token(secret_key: &str) -> (e: BuildEvent)
    ensures
        e@ == (BuildEventView::Error {
            code: Some("missing_token"@),
            message: "no secret at secrets://"@ + secret_key@,
        }),
{
    err_event("missing_token", concat("no secret at secrets://", secret_key))
}

/// The shell command of a direct publish on `channel` with the escaped
/// token `e`. None passes `--allow-dirty`: a dirty tree is a pre-flight
/// error, never shipped.
pub open spec fn direct_publish_spec(channel: Seq<char>, e: Seq<char>) -> Option<Seq<char>> {
    if channel == "crates.io"@ {
        Some("CARGO_REGISTRY_TOKEN="@ + e + " cargo publish"@)
    } else if channel == "npm"@ {
        Some("NPM_TOKEN="@ + e + " npm publish"@)
    } else if channel == "pypi"@ {
        Some("TWINE_USERNAME=__token__ TWINE_PASSWORD="@ + e + " twine upload dist/*"@)
    } else {
        None
    }
}

/// The shell command of a direct publish on `channel`, with `token`
/// shell-escaped into it; `None` for another channel.
pub fn direct_publish_command(channel: &str, token: &str) -> (r: Option<String>)
    ensures
        match r {
            Some(c) => direct_publish_spec(channel@, "'"@ + super::build::release::quote_escaped(token@) + "'"@)
                == Some(c@),
            None => direct_publish_spec(channel@, "'"@ + super::build::release::quote_escaped(token@) + "'"@)
                is None,
        },
{
    let e = super::build::release::shell_escape(token);
    if eq_str(channel, "crates.io") {
        let a = concat("CARGO_REGISTRY_TOKEN=", e.as_str());
        Some(concat(a.as_str(), " cargo publish"))
    } else if eq_str(channel, "npm") {
        let a = concat("NPM_TOKEN=", e.as_str());
        Some(concat(a.as_str(), " npm publish"))
    } else if eq_str(channel, "pypi") {
        let a = concat("TWINE_USERNAME=__token__ TWINE_PASSWORD=", e.as_str());
        Some(concat(a.as_str(), " twine upload dist/*"))
    } else {
        None
    }
}

/// What a direct publish reports: published on exit status 0, else the
/// `publish_failed` error with the status and the standard error.
pub fn publish_outcome(reference: RepoRefWire, channel: String, exit_code: i32, stderr: &str) -> (e: BuildEvent)
    ensures
        exit_code == 0 ==> e@ == (BuildEventView::PackagePublished {
            reference: (reference.org@, reference.name@),
            channel: channel@,
        }),
        exit_code != 0 ==> e@ == (BuildEventView::Error {
            code: Some("publish_failed"@),
            message: "exit "@ + signed_decimal(exit_code as int) + ": "@ + stderr@,
        }),
{
    if exit_code == 0 {
        BuildEvent::PackagePublished { reference, channel }
    } else {
        let code = i32_to_string(exit_code);
        let a = concat("exit ", code.as_str());
        let b = concat(a.as_str(), ": ");
        err_event("publish_failed", concat(b.as_str(), stderr))
    }
}

/// The branch a release pushes: the checkout's current branch, else
/// `main`.
pub fn release_branch(current: Option<String>) -> (s: String)
    ensures
        s@ == match current {
            Some(b) => b@,
            None => "main"@,
        },
{
    match current {
        Some(b) => b,
        None => "main".to_string(),
    }
}

/// A command to run must be given.
pub fn cmd_check(cmd: &str) -> (r: Option<BuildEvent>)
    ensures
        cmd@.len() == 0 ==> (r matches Some(e) && e@ == (BuildEventView::Error {
            code: Some("validation"@),
            message: "missing required parameter 'cmd'"@,
        })),
        cmd@.len() != 0 ==> r is None,
{
    if cmd.is_empty() {
        Some(err_event("validation", "missing required parameter 'cmd'".to_string()))
    } else {
        None
    }
}

/// Whether a `dry_run` parameter asks for a dry run: `true`, or one of
/// the strings `true`, `1`, `yes`.
pub open spec fn dry_run_spec(v: Option<DocValue>) -> bool {
    match v {
        Some(DocValue::Bool(b)) => b,
        Some(DocValue::Str(s)) => s@ == "true"@ || s@ == "1"@ || s@ == "yes"@,
        _ => false,
    }
}

/// Whether a `dry_run` parameter asks for a dry run.
pub fn dry_run_flag(v: Option<&DocValue>) -> (b: bool)
    ensures
        b == dry_run_spec(match v {
            Some(x) => Some(*x),
            None => None,
        }),
{
    match v {
        Some(DocValue::Bool(b)) => *b,
        Some(DocValue::Str(s)) => eq_str(s.as_str(), "true") || eq_str(s.as_str(), "1") || eq_str(s.as_str(), "yes"),
        _ => false,
    }
}

/// Where a Homebrew formula is written: `<name>.rb` in the tap
/// directory, else in the current directory.
pub fn brew_formula_path(tap: Option<&str>, name: &str) -> (s: String)
    ensures
        s@ == path_join(
            match tap {
                Some(t) => t@,
                None => "."@,
            },
            name@ + ".rb"@,
        ),
{
    let file = concat(name, ".rb");
    match tap {
        Some(t) => join_path(t, file.as_str()),
        None => join_path(".", file.as_str()),
    }
}

/// The counters of a command run or a release over a workspace's
/// members.
#[derive(Debug)]
pub struct MemberTally {
    pub total: u32,
    pub ok: u32,
    pub errored: u32,
}

impl MemberTally {
    /// No member done yet, of `members` (counted up to `u32::MAX`).
    pub fn new(members: usize) -> (t: MemberTally)
        ensures
            t.total == (if members > u32::MAX { u32::MAX } else { members as u32 }),
            t.ok == 0,
            t.errored == 0,
    {
        let total: u32 = if members > 4294967295usize {
            u32::MAX
        } else {
            members as u32
        };
        MemberTally { total, ok: 0, errored: 0 }
    }

    /// A member succeeded.
    pub fn succeeded(&mut self)
        requires
            old(self).ok < u32::MAX,
        ensures
            final(self).ok == old(self).ok + 1,
            final(self).errored == old(self).errored,
            final(self).total == old(self).total,
    {
        self.ok = self.ok + 1;
    }

    /// A member failed.
    pub fn failed(&mut self)
        requires
            old(self).errored < u32::MAX,
        ensures
            final(self).errored == old(self).errored + 1,
            final(self).ok == old(self).ok,
            final(self).total == old(self).total,
    {
        self.errored = self.errored + 1;
    }

    /// A command ran in a member: exit status 0 counts as success.
    pub fn ran(&mut self, exit_code: i32)
        requires
            exit_code == 0 ==> old(self).ok < u32::MAX,
            exit_code != 0 ==> old(self).errored < u32::MAX,
        ensures
            exit_code == 0 ==> final(self).ok == old(self).ok + 1 && final(self).errored == old(self).errored,
            exit_code != 0 ==> final(self).errored == old(self).errored + 1 && final(self).ok == old(self).ok,
            final(self).total == old(self).total,
    {
        if exit_code == 0 {
            self.succeeded();
        } else {
            self.failed();
        }
    }

    /// The summary of a command run.
    pub fn exec_summary(&self, name: String) -> (e: BuildEvent)
        ensures
            e@ == (BuildEventView::ExecSummary { name: name@, total: self.total, ok: self.ok, errored: self.errored }),
    {
        BuildEvent::ExecSummary { name, total: self.total, ok: self.ok, errored: self.errored }
    }

    /// The summary of a release over the workspace.
    pub fn release_summary(&self, name: String) -> (e: BuildEvent)
        ensures
            e@ == (BuildEventView::ReleaseSummary {
                name: name@,
                total: self.total,
                ok: self.ok,
                errored: self.errored,
            }),
    {
        BuildEvent::ReleaseSummary { name, total: self.total, ok: self.ok, errored: self.errored }
    }
}

/// The build surface's handle: where its configuration lives.
#[derive(Debug, Clone)]
pub struct BuildHub {
    pub config_dir: String,
}

impl BuildHub {
    pub fn new(config_dir: String) -> (h: BuildHub)
        ensures
            h.config_dir@ == config_dir@,
    {
        BuildHub { config_dir }
    }
}

// ---------------------------------------------------------------------
// Registry diff.
// ---------------------------------------------------------------------

/// The counters of a registry diff over a workspace.
#[derive(Debug)]
pub struct RegistryTally {
    total: u32,
    ahead: u32,
    stale: u32,
    up_to_date: u32,
    unpublished: u32,
    errored: u32,
}

/// A registry diff's counters as plain values.
pub struct RegistryTallyView {
    pub total: nat,
    pub ahead: nat,
    pub stale: nat,
    pub up_to_date: nat,
    pub unpublished: nat,
    pub errored: nat,
}

impl View for RegistryTally {
    type V = RegistryTallyView;

    closed spec fn view(&self) -> RegistryTallyView {
        RegistryTallyView {
            total: self.total as nat,
            ahead: self.ahead as nat,
            stale: self.stale as nat,
            up_to_date: self.up_to_date as nat,
            unpublished: self.unpublished as nat,
            errored: self.errored as nat,
        }
    }
}

/// Every counted package ends in exactly one of the five outcomes.
pub open spec fn registry_wf(v: RegistryTallyView) -> bool {
    v.total == v.ahead + v.stale + v.up_to_date + v.unpublished + v.errored
}

/// The view of an optional string, taken by reference.
pub open spec fn oref_str(o: Option<&str>) -> Option<Seq<char>> {
    match o {
        Some(s) => Some(s@),
        None => None,
    }
}

impl RegistryTally {
    #[verifier::type_invariant]
    closed spec fn inv(self) -> bool {
        registry_wf(self@)
    }

    /// All counters at zero.
    pub fn new() -> (t: RegistryTally)
        ensures
            t@.total == 0 && t@.ahead == 0 && t@.stale == 0 && t@.up_to_date == 0 && t@.unpublished == 0
                && t@.errored == 0,
    {
        RegistryTally { total: 0, ahead: 0, stale: 0, up_to_date: 0, unpublished: 0, errored: 0 }
    }

    /// How many packages were counted.
    pub fn total(&self) -> (n: u32)
        ensures
            n == self@.total,
            registry_wf(self@),
    {
        proof {
            use_type_invariant(self);
        }
        self.total
    }

    /// The registry query of a package that passed the filter failed: it
    /// is counted as errored, and the error is reported.
    pub fn query_failed(&mut self, code: &str, message: String) -> (e: BuildEvent)
        requires
            old(self)@.total < u32::MAX,
        ensures
            final(self)@.total == old(self)@.total + 1,
            final(self)@.errored == old(self)@.errored + 1,
            final(self)@.ahead == old(self)@.ahead,
            final(self)@.stale == old(self)@.stale,
            final(self)@.up_to_date == old(self)@.up_to_date,
            final(self)@.unpublished == old(self)@.unpublished,
            registry_wf(final(self)@),
            e@ == (BuildEventView::Error { code: Some(code@), message: message@ }),
    {
        proof {
            use_type_invariant(&*self);
        }
        *self = RegistryTally { total: self.total + 1, errored: self.errored + 1, ..*self };
        err_event(code, message)
    }

    /// The registry answered with `published` (no version: never
    /// published): the package's status is counted and reported.
    pub fn record(
        &mut self,
        package_name: &str,
        build_system: &str,
        local_version: &str,
        published: Option<&str>,
        registry: &str,
    ) -> (e: BuildEvent)
        requires
            old(self)@.total < u32::MAX,
        ensures
            ({
                let st = diff_status_spec(local_version@, oref_str(published));
                &&& final(self)@.ahead == old(self)@.ahead + (if st == "ahead"@ { 1int } else { 0 })
                &&& final(self)@.stale == old(self)@.stale + (if st == "stale"@ { 1int } else { 0 })
                &&& final(self)@.up_to_date == old(self)@.up_to_date + (if st == "up_to_date"@ { 1int } else { 0 })
                &&& final(self)@.unpublished == old(self)@.unpublished + (if st == "unpublished"@ { 1int } else { 0 })
                &&& e@ == (BuildEventView::RegistryDiffEntry {
                    package_name: package_name@,
                    build_system: build_system@,
                    local_version: local_version@,
                    published_version: oref_str(published),
                    registry: registry@,
                    status: st,
                })
            }),
            final(self)@.total == old(self)@.total + 1,
            final(self)@.errored == old(self)@.errored,
            registry_wf(final(self)@),
    {
        proof {
            use_type_invariant(&*self);
        }
        let st = diff_status(local_version, match published {
            Some(p) => Some(p),
            None => None,
        });
        proof {
            reveal_strlit("ahead");
            reveal_strlit("stale");
            reveal_strlit("up_to_date");
            reveal_strlit("unpublished");
            assert("ahead"@ != "stale"@) by { assert("ahead"@[0] != "stale"@[0]); }
            assert("ahead"@.len() != "up_to_date"@.len());
            assert("ahead"@.len() != "unpublished"@.len());
            assert("stale"@.len() != "up_to_date"@.len());
            assert("stale"@.len() != "unpublished"@.len());
            assert("up_to_date"@.len() != "unpublished"@.len());
        }
        if eq_str(st, "ahead") {
            *self = RegistryTally { total: self.total + 1, ahead: self.ahead + 1, ..*self };
        } else if eq_str(st, "stale") {
            *self = RegistryTally { total: self.total + 1, stale: self.stale + 1, ..*self };
        } else if eq_str(st, "up_to_date") {
            *self = RegistryTally { total: self.total + 1, up_to_date: self.up_to_date + 1, ..*self };
        } else {
            assert(st@ == "unpublished"@);
            *self = RegistryTally { total: self.total + 1, unpublished: self.unpublished + 1, ..*self };
        }
        assert(st@ == diff_status_spec(local_version@, oref_str(published)));
        let pv = match published {
            Some(p) => Some(p.to_string()),
            None => None,
        };
        assert(ostr(pv) == oref_str(published));
        BuildEvent::RegistryDiffEntry {
            package_name: package_name.to_string(),
            build_system: build_system.to_string(),
            local_version: local_version.to_string(),
            published_version: pv,
            registry: registry.to_string(),
            status: st.to_string(),
        }
    }

    /// The closing summary of the diff of workspace `name`.
    pub fn summary(&self, name: String) -> (e: BuildEvent)
        ensures
            e@ == (BuildEventView::RegistryDiffSummary {
                name: name@,
                total: self@.total as u32,
                ahead: self@.ahead as u32,
                stale: self@.stale as u32,
                up_to_date: self@.up_to_date as u32,
                unpublished: self@.unpublished as u32,
                errored: self@.errored as u32,
            }),
            registry_wf(self@),
    {
        proof {
            use_type_invariant(self);
        }
        BuildEvent::RegistryDiffSummary {
            name,
            total: self.total,
            ahead: self.ahead,
            stale: self.stale,
            up_to_date: self.up_to_date,
            unpublished: self.unpublished,
            errored: self.errored,
        }
    }
}

// ---------------------------------------------------------------------
// Drift fix.
// ---------------------------------------------------------------------

/// Which manifest an automatic bump rewrites.
#[derive(Debug, Clone, Copy, PartialEq, Eq)]
pub enum BumpManifest {
    Cargo,
    Cabal,
}

/// The manifest an automatic bump rewrites for `build_system`.
pub open spec fn bump_manifest_spec(build_system: Seq<char>) -> Option<BumpManifest> {
    if build_system == "cargo"@ {
        Some(BumpManifest::Cargo)
    } else if build_system == "cabal"@ {
        Some(BumpManifest::Cabal)
    } else {
        None
    }
}

/// The manifest a drift fix bumps for `build_system`, or the error
/// reported for a build system that cannot be bumped.
pub fn drift_bump_manifest(build_system: &str) -> (r: Result<BumpManifest, BuildEvent>)
    ensures
        match bump_manifest_spec(build_system@) {
            Some(m) => r == Ok::<BumpManifest, BuildEvent>(m),
            None => r is Err && r->Err_0@ == (BuildEventView::Error {
                code: Some("unsupported"@),
                message: "auto-bump not supported for build system '"@ + build_system@ + "'"@,
            }),
        },
{
    if eq_str(build_system, "cargo") {
        Ok(BumpManifest::Cargo)
    } else if eq_str(build_system, "cabal") {
        Ok(BumpManifest::Cabal)
    } else {
        let m = concat(&concat("auto-bump not supported for build system '", build_system), "'");
        Err(err_event("unsupported", m))
    }
}

/// The commit message of a drift fix.
pub fn drift_commit_message(package_name: &str, old: &str, new: &str) -> (s: String)
    ensures
        s@ == "chore: bump "@ + package_name@ + " "@ + old@ + " \u{2192} "@ + new@ + " (drift)"@,
{
    let a = concat("chore: bump ", package_name);
    let b = concat(&a, " ");
    let c = concat(&b, old);
    let d = concat(&c, " \u{2192} ");
    let e = concat(&d, new);
    concat(&e, " (drift)")
}

/// What a drift fix does with one checked package.
#[derive(Debug, Clone, Copy, PartialEq, Eq, Structural)]
pub enum DriftAction {
    /// Not drifted (or its registry could not be asked): nothing.
    Skip,
    /// Drifted, in a dry run: the bump is reported, nothing is written
    /// or committed.
    ReportOnly,
    /// Drifted: the bumped manifest is written and committed.
    WriteAndCommit,
}

/// The counters of a drift fix over a workspace.
#[derive(Debug)]
pub struct DriftTally {
    dry_run: bool,
    total_checked: u32,
    drifted: u32,
    fixed: u32,
}

/// A drift fix's counters as plain values.
pub struct DriftTallyView {
    pub dry_run: bool,
    pub total_checked: nat,
    pub drifted: nat,
    pub fixed: nat,
}

impl View for DriftTally {
    type V = DriftTallyView;

    closed spec fn view(&self) -> DriftTallyView {
        DriftTallyView {
            dry_run: self.dry_run,
            total_checked: self.total_checked as nat,
            drifted: self.drifted as nat,
            fixed: self.fixed as nat,
        }
    }
}

/// Only checked packages drift, only drifted ones are fixed, and a dry
/// run fixes none.
pub open spec fn drift_wf(v: DriftTallyView) -> bool {
    &&& v.drifted <= v.total_checked
    &&& v.fixed <= v.drifted
    &&& v.dry_run ==> v.fixed == 0
}

impl DriftTally {
    #[verifier::type_invariant]
    closed spec fn inv(self) -> bool {
        drift_wf(self@)
    }

    /// A fresh drift fix; without a choice it is a dry run.
    pub fn new(dry_run: Option<bool>) -> (t: DriftTally)
        ensures
            t@.dry_run == match dry_run {
                Some(b) => b,
                None => true,
            },
            t@.total_checked == 0 && t@.drifted == 0 && t@.fixed == 0,
    {
        let dry = match dry_run {
            Some(b) => b,
            None => true,
        };
        DriftTally { dry_run: dry, total_checked: 0, drifted: 0, fixed: 0 }
    }

    /// Whether this is a dry run.
    pub fn dry_run(&self) -> (b: bool)
        ensures
            b == self@.dry_run,
    {
        self.dry_run
    }

    /// How many packages were checked.
    pub fn total_checked(&self) -> (n: u32)
        ensures
            n == self@.total_checked,
    {
        self.total_checked
    }

    /// How many checked packages had drifted.
    pub fn drifted(&self) -> (n: u32)
        ensures
            n == self@.drifted,
    {
        self.drifted
    }

    /// How many drifted packages were written and committed.
    pub fn fixed(&self) -> (n: u32)
        ensures
            n == self@.fixed,
    {
        self.fixed
    }

    /// One package that passed the filter was checked: `status` is its
    /// registry status (`None` when the registry could not be asked). It
    /// has drifted when the registry already holds its local version
    /// (its sources may have changed since). The answer says what to do:
    /// nothing, report the bump only (a dry run never writes), or write
    /// and commit it.
    pub fn step(&mut self, status: Option<&str>) -> (a: DriftAction)
        requires
            old(self)@.total_checked < u32::MAX,
        ensures
            final(self)@.total_checked == old(self)@.total_checked + 1,
            final(self)@.drifted == old(self)@.drifted + (if a != DriftAction::Skip { 1int } else { 0 }),
            final(self)@.fixed == old(self)@.fixed,
            final(self)@.dry_run == old(self)@.dry_run,
            a == (match status {
                Some(st) => if st@ == "up_to_date"@ {
                    if old(self)@.dry_run {
                        DriftAction::ReportOnly
                    } else {
                        DriftAction::WriteAndCommit
                    }
                } else {
                    DriftAction::Skip
                },
                None => DriftAction::Skip,
            }),
            old(self)@.dry_run ==> a != DriftAction::WriteAndCommit,
    {
        proof {
            use_type_invariant(&*self);
        }
        self.total_checked = self.total_checked + 1;
        let drifted = match status {
            Some(st) => eq_str(st, "up_to_date"),
            None => false,
        };
        if drifted {
            self.drifted = self.drifted + 1;
            if self.dry_run {
                DriftAction::ReportOnly
            } else {
                DriftAction::WriteAndCommit
            }
        } else {
            DriftAction::Skip
        }
    }

    /// A package whose step said `WriteAndCommit` was written and
    /// committed (at most once per drifted package).
    pub fn fixed_one(&mut self)
        requires
            !old(self)@.dry_run,
            old(self)@.fixed < old(self)@.drifted,
        ensures
            final(self)@.fixed == old(self)@.fixed + 1,
            final(self)@.total_checked == old(self)@.total_checked,
            final(self)@.drifted == old(self)@.drifted,
            final(self)@.dry_run == old(self)@.dry_run,
    {
        proof {
            use_type_invariant(&*self);
        }
        self.fixed = self.fixed + 1;
    }

    /// The event of a bump from `old` to `new`.
    pub fn fixed_event(&self, package_name: &str, old: &str, new: &str, build_system: &str) -> (e: BuildEvent)
        ensures
            e@ == (BuildEventView::DriftFixed {
                package_name: package_name@,
                old_version: old@,
                new_version: new@,
                build_system: build_system@,
                dry_run: self@.dry_run,
            }),
    {
        BuildEvent::DriftFixed {
            package_name: package_name.to_string(),
            old_version: old.to_string(),
            new_version: new.to_string(),
            build_system: build_system.to_string(),
            dry_run: self.dry_run,
        }
    }

    /// The closing summary: its counters never exceed one another, and a
    /// dry run reports none fixed.
    pub fn summary(&self) -> (e: BuildEvent)
        ensures
            e@ == (BuildEventView::DriftSummary {
                total_checked: self@.total_checked as u32,
                drifted: self@.drifted as u32,
                fixed: self@.fixed as u32,
                dry_run: self@.dry_run,
            }),
            self@.drifted <= self@.total_checked,
            self@.fixed <= self@.drifted,
            self@.dry_run ==> self@.fixed == 0,
    {
        proof {
            use_type_invariant(self);
        }
        BuildEvent::DriftSummary {
            total_checked: self.total_checked,
            drifted: self.drifted,
            fixed: self.fixed,
            dry_run: self.dry_run,
        }
    }
}

// ---------------------------------------------------------------------
// Workspace publish: the run.
// ---------------------------------------------------------------------

/// The bump kind of a workspace publish (`patch` unless given), or the
/// text of the error when it is not `patch`, `minor` or `major`.
pub open spec fn publish_bump_spec(bump: Option<Seq<char>>) -> Result<Seq<char>, Seq<char>> {
    let k = match bump {
        Some(b) => b,
        None => "patch"@,
    };
    if k == "patch"@ || k == "minor"@ || k == "major"@ {
        Ok(k)
    } else {
        Err("invalid bump kind: "@ + k)
    }
}

/// The bump kind of a workspace publish, or the validation error.
pub fn publish_bump_kind(bump: Option<&str>) -> (r: Result<String, BuildEvent>)
    ensures
        match publish_bump_spec(oref_str(bump)) {
            Ok(k) => r is Ok && r->Ok_0@ == k,
            Err(m) => r is Err && r->Err_0@ == (BuildEventView::Error { code: Some("validation"@), message: m }),
        },
{
    let k = match bump {
        Some(b) => b,
        None => "patch",
    };
    if eq_str(k, "patch") || eq_str(k, "minor") || eq_str(k, "major") {
        Ok(k.to_string())
    } else {
        Err(err_event("validation", concat("invalid bump kind: ", k)))
    }
}

/// The publish channel of a registry.
pub open spec fn channel_spec(registry: Seq<char>) -> Seq<char> {
    if registry == "crates_io"@ {
        "crates.io"@
    } else {
        registry
    }
}

/// The publish channel of a registry (`crates_io` publishes to
/// `crates.io`; `hackage` and `npm` keep their names, as does any other).
pub fn registry_to_channel(registry: &str) -> (c: String)
    ensures
        c@ == channel_spec(registry@),
{
    if eq_str(registry, "crates_io") {
        "crates.io".to_string()
    } else {
        registry.to_string()
    }
}

/// What a publish run does with a package when its turn comes.
#[derive(Debug)]
pub enum PackageStart {
    /// No registry status is known for it: nothing happens.
    Unknown,
    /// A package of an earlier tier failed: this one is reported failed.
    EarlierTierFailed(BuildEvent),
    /// The registry holds its version: it is skipped.
    Skip(BuildEvent),
    /// Its manifest is bumped, then it is published.
    Bump(BumpManifest),
    /// It is published as it stands.
    Publish,
}

/// How the publish command of a package went.
#[derive(Debug)]
pub enum PublishOutcome {
    /// A dry run: nothing was run.
    Rehearsed,
    /// The channel has no secret key.
    UnknownChannel,
    /// No secret is stored under the key.
    MissingSecret(String),
    /// The secret reference did not parse.
    BadSecretRef(String),
    /// The channel has no publish command.
    NoCommand,
    /// The command ran and exited.
    Exited { code: i32, stderr: String },
    /// The command could not be run.
    RunFailed(String),
}

/// What publishing one package of a workspace run takes.
#[derive(Debug, Clone, Copy, PartialEq, Eq)]
pub enum PublishPlan {
    /// A dry run: rehearse only.
    Rehearse,
    /// The package's channel has no secret key.
    UnknownChannel,
    /// Resolve the token stored under this key (below `secrets://`).
    ResolveSecret(&'static str),
}

/// Where a publish run stands with its current package.
#[derive(Debug, Clone, Copy, PartialEq, Eq)]
pub enum PublishPhase {
    /// Between packages.
    Idle,
    /// Its manifest is being bumped.
    Bumping,
    /// It is being published.
    Publishing,
}

/// What follows a successful bump.
#[derive(Debug)]
pub struct BumpFollowUp {
    pub event: BuildEvent,
    /// The message to commit the bump with, unless nothing is committed.
    pub commit_message: Option<String>,
    /// The tag to set, unless no tag is set.
    pub tag: Option<String>,
}

/// A workspace publish run: its options, counters and current package.
#[derive(Debug)]
pub struct PublishRun {
    dry_run: bool,
    skip_commit: bool,
    skip_tag: bool,
    total: u32,
    published: u32,
    failed: u32,
    skipped: u32,
    auto_bumped: u32,
    tier_failed: bool,
    failed_in_tier: bool,
    phase: PublishPhase,
    name: String,
    version: String,
    registry: String,
}

/// A publish run as plain values.
pub struct PublishRunView {
    pub dry_run: bool,
    pub skip_commit: bool,
    pub skip_tag: bool,
    pub total: nat,
    pub published: nat,
    pub failed: nat,
    pub skipped: nat,
    pub auto_bumped: nat,
    /// A package of an earlier, finished tier failed.
    pub tier_failed: bool,
    /// A package of the current tier failed.
    pub failed_in_tier: bool,
    pub phase: PublishPhase,
    pub name: Seq<char>,
    pub version: Seq<char>,
    pub registry: Seq<char>,
}

impl View for PublishRun {
    type V = PublishRunView;

    closed spec fn view(&self) -> PublishRunView {
        PublishRunView {
            dry_run: self.dry_run,
            skip_commit: self.skip_commit,
            skip_tag: self.skip_tag,
            total: self.total as nat,
            published: self.published as nat,
            failed: self.failed as nat,
            skipped: self.skipped as nat,
            auto_bumped: self.auto_bumped as nat,
            tier_failed: self.tier_failed,
            failed_in_tier: self.failed_in_tier,
            phase: self.phase,
            name: self.name@,
            version: self.version@,
            registry: self.registry@,
        }
    }
}

/// The counters stay within the packages started: each package ends
/// published, failed or skipped at most once, and is bumped at most
/// once.
pub open spec fn run_wf(v: PublishRunView) -> bool {
    &&& v.total <= u32::MAX
    &&& v.published + v.failed + v.skipped + (if v.phase == PublishPhase::Idle { 0int } else { 1 }) <= v.total
    &&& v.auto_bumped + (if v.phase == PublishPhase::Bumping { 1int } else { 0 }) <= v.total
}

/// The event of a step of the current package.
pub open spec fn step_view(v: PublishRunView, version: Seq<char>, action: Seq<char>, error: Option<Seq<char>>) -> BuildEventView {
    BuildEventView::PublishStep {
        package_name: v.name,
        version: version,
        registry: v.registry,
        action: action,
        error: error,
        dry_run: v.dry_run,
    }
}

/// The error of a failed publish command.
pub open spec fn outcome_error(channel: Seq<char>, o: PublishOutcome) -> Option<Seq<char>> {
    match o {
        PublishOutcome::Rehearsed => None,
        PublishOutcome::UnknownChannel => Some("unknown channel: "@ + channel),
        PublishOutcome::MissingSecret(key) => Some("no secret at secrets://"@ + key@),
        PublishOutcome::BadSecretRef(m) => Some(m@),
        PublishOutcome::NoCommand => Some("no publish command for channel: "@ + channel),
        PublishOutcome::Exited { code, stderr } => if code == 0 {
            None
        } else {
            Some("exit "@ + signed_decimal(code as int) + ": "@ + trim(stderr@))
        },
        PublishOutcome::RunFailed(m) => Some(m@),
    }
}

impl PublishRun {
    pub closed spec fn wf(&self) -> bool {
        run_wf(self@) && self.total as nat == self@.total
    }

    /// A fresh run. `execute` (default no) publishes for real rather
    /// than rehearsing; `no_tag` and `no_commit` (default no) skip the
    /// tags and commits after bumps.
    pub fn new(execute: Option<bool>, no_tag: Option<bool>, no_commit: Option<bool>) -> (r: PublishRun)
        ensures
            r.wf(),
            r@.dry_run == !match execute {
                Some(b) => b,
                None => false,
            },
            r@.skip_tag == match no_tag {
                Some(b) => b,
                None => false,
            },
            r@.skip_commit == match no_commit {
                Some(b) => b,
                None => false,
            },
            r@.total == 0 && r@.published == 0 && r@.failed == 0 && r@.skipped == 0 && r@.auto_bumped == 0,
            !r@.tier_failed,
            !r@.failed_in_tier,
            r@.phase == PublishPhase::Idle,
    {
        let ex = match execute {
            Some(b) => b,
            None => false,
        };
        let nt = match no_tag {
            Some(b) => b,
            None => false,
        };
        let nc = match no_commit {
            Some(b) => b,
            None => false,
        };
        PublishRun {
            dry_run: !ex,
            skip_commit: nc,
            skip_tag: nt,
            total: 0,
            published: 0,
            failed: 0,
            skipped: 0,
            auto_bumped: 0,
            tier_failed: false,
            failed_in_tier: false,
            phase: PublishPhase::Idle,
            name: String::new(),
            version: String::new(),
            registry: String::new(),
        }
    }

    /// Whether a package of an earlier, finished tier has failed (every
    /// package of the tiers after it then fails).
    pub fn tier_failed(&self) -> (b: bool)
        ensures
            b == self@.tier_failed,
    {
        self.tier_failed
    }

    /// Whether a package of the current tier has failed. The rest of
    /// the tier still runs: the members of one tier are independent.
    pub fn failed_in_tier(&self) -> (b: bool)
        ensures
            b == self@.failed_in_tier,
    {
        self.failed_in_tier
    }

    /// The current tier is done: a failure in it fails every package of
    /// the tiers that follow.
    pub fn end_tier(&mut self)
        requires
            old(self).wf(),
            old(self)@.phase == PublishPhase::Idle,
        ensures
            final(self).wf(),
            final(self)@ == (PublishRunView {
                tier_failed: old(self)@.tier_failed || old(self)@.failed_in_tier,
                failed_in_tier: false,
                ..old(self)@
            }),
    {
        if self.failed_in_tier {
            self.tier_failed = true;
        }
        self.failed_in_tier = false;
    }

    /// Whether this run only rehearses.
    pub fn dry_run(&self) -> (b: bool)
        ensures
            b == self@.dry_run,
    {
        self.dry_run
    }

    /// Where the run stands with its current package.
    pub fn phase(&self) -> (p: PublishPhase)
        ensures
            p == self@.phase,
    {
        self.phase
    }

    /// The number of packages started so far.
    pub fn total(&self) -> (n: u32)
        requires
            self.wf(),
        ensures
            n == self@.total,
    {
        self.total
    }

    /// The turn of the package `name` comes; `candidate` is what is known
    /// of it (nothing when its registry query failed). Every package
    /// counts towards the total. After a failure in an earlier tier (one
    /// that `end_tier` has closed) it fails; a failure earlier in its own
    /// tier does not touch it; an up-to-date one is skipped; one that is unpublished,
    /// ahead or stale is bumped first when it is a Cargo or Cabal
    /// package; any other is published as it stands.
    pub fn begin(&mut self, name: &str, candidate: Option<&PublishCandidate>) -> (s: PackageStart)
        requires
            old(self).wf(),
            old(self)@.phase == PublishPhase::Idle,
            old(self)@.total < u32::MAX,
        ensures
            final(self).wf(),
            final(self)@.total == old(self)@.total + 1,
            final(self)@.dry_run == old(self)@.dry_run,
            final(self)@.skip_commit == old(self)@.skip_commit,
            final(self)@.skip_tag == old(self)@.skip_tag,
            final(self)@.tier_failed == old(self)@.tier_failed,
            final(self)@.failed_in_tier == old(self)@.failed_in_tier,
            final(self)@.published == old(self)@.published,
            final(self)@.auto_bumped == old(self)@.auto_bumped,
            match candidate {
                None => s is Unknown && final(self)@.phase == PublishPhase::Idle
                    && final(self)@.failed == old(self)@.failed && final(self)@.skipped == old(self)@.skipped,
                Some(c) => {
                    &&& final(self)@.name == name@
                    &&& final(self)@.version == c.local_version@
                    &&& final(self)@.registry == c.registry@
                    &&& if old(self)@.tier_failed {
                        &&& s is EarlierTierFailed
                        &&& s->EarlierTierFailed_0@ == step_view(final(self)@, c.local_version@, "failed"@,
                            Some("dependency in earlier tier failed"@))
                        &&& final(self)@.failed == old(self)@.failed + 1
                        &&& final(self)@.skipped == old(self)@.skipped
                        &&& final(self)@.phase == PublishPhase::Idle
                    } else if c.status@ == "up_to_date"@ {
                        &&& s is Skip
                        &&& s->Skip_0@ == step_view(final(self)@, c.local_version@, "skip"@, None)
                        &&& final(self)@.skipped == old(self)@.skipped + 1
                        &&& final(self)@.failed == old(self)@.failed
                        &&& final(self)@.phase == PublishPhase::Idle
                    } else {
                        &&& final(self)@.failed == old(self)@.failed
                        &&& final(self)@.skipped == old(self)@.skipped
                        &&& if (c.status@ == "unpublished"@ || c.status@ == "ahead"@ || c.status@ == "stale"@)
                            && bump_manifest_spec(c.build_system@) is Some {
                            s == PackageStart::Bump(bump_manifest_spec(c.build_system@)->0)
                                && final(self)@.phase == PublishPhase::Bumping
                        } else {
                            s is Publish && final(self)@.phase == PublishPhase::Publishing
                        }
                    }
                },
            },
    {
        self.total = self.total + 1;
        match candidate {
            None => PackageStart::Unknown,
            Some(c) => {
                self.name = name.to_string();
                self.version = c.local_version.clone();
                self.registry = c.registry.clone();
                if self.tier_failed {
                    self.failed = self.failed + 1;
                    let ev = BuildEvent::PublishStep {
                        package_name: name.to_string(),
                        version: c.local_version.clone(),
                        registry: c.registry.clone(),
                        action: "failed".to_string(),
                        error: Some("dependency in earlier tier failed".to_string()),
                        dry_run: self.dry_run,
                    };
                    PackageStart::EarlierTierFailed(ev)
                } else if eq_str(c.status.as_str(), "up_to_date") {
                    self.skipped = self.skipped + 1;
                    let ev = BuildEvent::PublishStep {
                        package_name: name.to_string(),
                        version: c.local_version.clone(),
                        registry: c.registry.clone(),
                        action: "skip".to_string(),
                        error: None,
                        dry_run: self.dry_run,
                    };
                    PackageStart::Skip(ev)
                } else {
                    let needs = eq_str(c.status.as_str(), "unpublished") || eq_str(c.status.as_str(), "ahead")
                        || eq_str(c.status.as_str(), "stale");
                    if needs && eq_str(c.build_system.as_str(), "cargo") {
                        self.phase = PublishPhase::Bumping;
                        PackageStart::Bump(BumpManifest::Cargo)
                    } else if needs && eq_str(c.build_system.as_str(), "cabal") {
                        self.phase = PublishPhase::Bumping;
                        PackageStart::Bump(BumpManifest::Cabal)
                    } else {
                        self.phase = PublishPhase::Publishing;
                        PackageStart::Publish
                    }
                }
            },
        }
    }

    /// The bump of the current package gave `outcome`: its new version,
    /// or the error. A bumped package is published next at its new
    /// version, after a commit (unless commits are skipped) and a tag
    /// `<name>-v<version>` (unless tags are skipped), neither of which a
    /// dry run makes. A failed bump fails the package; once its tier
    /// ends, every later tier fails too.
    pub fn bumped(&mut self, outcome: Result<String, String>) -> (r: Result<BumpFollowUp, BuildEvent>)
        requires
            old(self).wf(),
            old(self)@.phase == PublishPhase::Bumping,
        ensures
            final(self).wf(),
            final(self)@.total == old(self)@.total,
            final(self)@.dry_run == old(self)@.dry_run,
            final(self)@.skip_commit == old(self)@.skip_commit,
            final(self)@.skip_tag == old(self)@.skip_tag,
            final(self)@.published == old(self)@.published,
            final(self)@.skipped == old(self)@.skipped,
            final(self)@.name == old(self)@.name,
            final(self)@.registry == old(self)@.registry,
            match outcome {
                Ok(new) => {
                    &&& r is Ok
                    &&& final(self)@.version == new@
                    &&& final(self)@.auto_bumped == old(self)@.auto_bumped + 1
                    &&& final(self)@.failed == old(self)@.failed
                    &&& final(self)@.tier_failed == old(self)@.tier_failed
                    &&& final(self)@.failed_in_tier == old(self)@.failed_in_tier
                    &&& final(self)@.phase == PublishPhase::Publishing
                    &&& r->Ok_0.event@ == step_view(old(self)@, new@, "auto_bump"@, None)
                    &&& ostr(r->Ok_0.commit_message) == if !old(self)@.dry_run && !old(self)@.skip_commit {
                        Some("chore: bump "@ + old(self)@.name + " to "@ + new@)
                    } else {
                        None
                    }
                    &&& ostr(r->Ok_0.tag) == if !old(self)@.dry_run && !old(self)@.skip_tag {
                        Some(old(self)@.name + "-v"@ + new@)
                    } else {
                        None
                    }
                },
                Err(e) => {
                    &&& r is Err
                    &&& r->Err_0@ == step_view(old(self)@, old(self)@.version, "failed"@, Some("bump failed: "@ + e@))
                    &&& final(self)@.version == old(self)@.version
                    &&& final(self)@.auto_bumped == old(self)@.auto_bumped
                    &&& final(self)@.failed == old(self)@.failed + 1
                    &&& final(self)@.tier_failed == old(self)@.tier_failed
                    &&& final(self)@.failed_in_tier
                    &&& final(self)@.phase == PublishPhase::Idle
                },
            },
    {
        match outcome {
            Ok(new) => {
                self.auto_bumped = self.auto_bumped + 1;
                self.phase = PublishPhase::Publishing;
                let event = BuildEvent::PublishStep {
                    package_name: self.name.clone(),
                    version: new.clone(),
                    registry: self.registry.clone(),
                    action: "auto_bump".to_string(),
                    error: None,
                    dry_run: self.dry_run,
                };
                let commit_message = if !self.dry_run && !self.skip_commit {
                    let a = concat("chore: bump ", self.name.as_str());
                    let b = concat(&a, " to ");
                    Some(concat(&b, new.as_str()))
                } else {
                    None
                };
                let tag = if !self.dry_run && !self.skip_tag {
                    let a = concat(self.name.as_str(), "-v");
                    Some(concat(&a, new.as_str()))
                } else {
                    None
                };
                self.version = new;
                Ok(BumpFollowUp { event, commit_message, tag })
            },
            Err(e) => {
                self.failed = self.failed + 1;
                self.failed_in_tier = true;
                self.phase = PublishPhase::Idle;
                Err(BuildEvent::PublishStep {
                    package_name: self.name.clone(),
                    version: self.version.clone(),
                    registry: self.registry.clone(),
                    action: "failed".to_string(),
                    error: Some(concat("bump failed: ", e.as_str())),
                    dry_run: self.dry_run,
                })
            },
        }
    }

    /// The publish channel of the current package.
    pub fn channel(&self) -> (c: String)
        ensures
            c@ == channel_spec(self@.registry),
    {
        registry_to_channel(self.registry.as_str())
    }

    /// Whether a bumped manifest is written to disk: only outside a dry
    /// run.
    pub fn writes_bumped_manifest(&self) -> (b: bool)
        ensures
            b == !self@.dry_run,
    {
        !self.dry_run
    }

    /// What publishing the current package takes: in a dry run, nothing
    /// but a rehearsal (no secret is resolved, no command run); else the
    /// secret key of its channel, or the unknown-channel failure.
    pub fn publish_plan(&self) -> (p: PublishPlan)
        ensures
            self@.dry_run ==> p == PublishPlan::Rehearse,
            !self@.dry_run ==> match super::build::release::channel_secret_key(channel_spec(self@.registry)) {
                None => p == PublishPlan::UnknownChannel,
                Some(k) => p matches PublishPlan::ResolveSecret(x) && x@ == k,
            },
    {
        if self.dry_run {
            return PublishPlan::Rehearse;
        }
        let ch = self.channel();
        match super::build::release::secret_key_for_channel(ch.as_str()) {
            None => PublishPlan::UnknownChannel,
            Some(k) => PublishPlan::ResolveSecret(k),
        }
    }

    /// The shell command that publishes the current package with `token`
    /// (none outside the known channels; never `--allow-dirty`).
    pub fn command_for(&self, token: &str) -> (r: Option<String>)
        ensures
            match r {
                Some(c) => super::build::release::publish_command_spec(
                    channel_spec(self@.registry),
                    "'"@ + super::build::release::quote_escaped(token@) + "'"@,
                ) == Some(c@),
                None => super::build::release::publish_command_spec(
                    channel_spec(self@.registry),
                    "'"@ + super::build::release::quote_escaped(token@) + "'"@,
                ) is None,
            },
    {
        let ch = self.channel();
        super::build::release::publish_command(ch.as_str(), token)
    }

    /// The publish of the current package gave `outcome`. A rehearsal or
    /// a command that exits with 0 publishes it; anything else fails it,
    /// with the error `outcome_error` gives, and, once its tier ends,
    /// every later tier.
    pub fn finish(&mut self, outcome: PublishOutcome) -> (e: BuildEvent)
        requires
            old(self).wf(),
            old(self)@.phase == PublishPhase::Publishing,
        ensures
            final(self).wf(),
            final(self)@.phase == PublishPhase::Idle,
            final(self)@.total == old(self)@.total,
            final(self)@.dry_run == old(self)@.dry_run,
            final(self)@.skip_commit == old(self)@.skip_commit,
            final(self)@.skip_tag == old(self)@.skip_tag,
            final(self)@.skipped == old(self)@.skipped,
            final(self)@.auto_bumped == old(self)@.auto_bumped,
            final(self)@.tier_failed == old(self)@.tier_failed,
            final(self)@.name == old(self)@.name,
            final(self)@.version == old(self)@.version,
            final(self)@.registry == old(self)@.registry,
            match outcome_error(channel_spec(old(self)@.registry), outcome) {
                None => {
                    &&& e@ == step_view(old(self)@, old(self)@.version, "publish"@, None)
                    &&& final(self)@.published == old(self)@.published + 1
                    &&& final(self)@.failed == old(self)@.failed
                    &&& final(self)@.failed_in_tier == old(self)@.failed_in_tier
                },
                Some(m) => {
                    &&& e@ == step_view(old(self)@, old(self)@.version, "failed"@, Some(m))
                    &&& final(self)@.published == old(self)@.published
                    &&& final(self)@.failed == old(self)@.failed + 1
                    &&& final(self)@.failed_in_tier
                },
            },
    {
        let channel = self.channel();
        let error: Option<String> = match outcome {
            PublishOutcome::Rehearsed => None,
            PublishOutcome::UnknownChannel => Some(concat("unknown channel: ", channel.as_str())),
            PublishOutcome::MissingSecret(key) => Some(concat("no secret at secrets://", key.as_str())),
            PublishOutcome::BadSecretRef(m) => Some(m),
            PublishOutcome::NoCommand => Some(concat("no publish command for channel: ", channel.as_str())),
            PublishOutcome::Exited { code, stderr } => {
                if code == 0 {
                    None
                } else {
                    let a = concat("exit ", i32_to_string(code).as_str());
                    let b = concat(&a, ": ");
                    Some(concat(&b, trim_str(stderr.as_str()).as_str()))
                }
            },
            PublishOutcome::RunFailed(m) => Some(m),
        };
        self.phase = PublishPhase::Idle;
        match error {
            None => {
                self.published = self.published + 1;
                BuildEvent::PublishStep {
                    package_name: self.name.clone(),
                    version: self.version.clone(),
                    registry: self.registry.clone(),
                    action: "publish".to_string(),
                    error: None,
                    dry_run: self.dry_run,
                }
            },
            Some(m) => {
                self.failed = self.failed + 1;
                self.failed_in_tier = true;
                BuildEvent::PublishStep {
                    package_name: self.name.clone(),
                    version: self.version.clone(),
                    registry: self.registry.clone(),
                    action: "failed".to_string(),
                    error: Some(m),
                    dry_run: self.dry_run,
                }
            },
        }
    }

    /// The closing summary.
    pub fn summary(&self) -> (e: BuildEvent)
        requires
            self.wf(),
        ensures
            e@ == (BuildEventView::PublishSummary {
                total: self@.total as u32,
                published: self@.published as u32,
                failed: self@.failed as u32,
                skipped: self@.skipped as u32,
                auto_bumped: self@.auto_bumped as u32,
            }),
    {
        BuildEvent::PublishSummary {
            total: self.total,
            published: self.published,
            failed: self.failed,
            skipped: self.skipped,
            auto_bumped: self.auto_bumped,
        }
    }
}

/// Whether some candidate named `n` publishes to crates.io.
pub open spec fn on_crates_io(cs: Seq<PublishCandidate>, n: Seq<char>) -> bool {
    exists|i: int| 0 <= i < cs.len() && cs[i].name@ == n && #[trigger] cs[i].registry@ == "crates_io"@
}

/// Whether a real run waits for the registries to catch up after tier
/// `tier_idx` of `n_tiers` (once `end_tier` has closed it): when nothing
/// has failed, more tiers follow, and a package of this tier went to
/// crates.io.
pub fn wait_after_tier(
    run: &PublishRun,
    tier_idx: usize,
    n_tiers: usize,
    tier: &Vec<String>,
    cs: &Vec<PublishCandidate>,
) -> (b: bool)
    ensures
        b == (!run@.dry_run && !run@.tier_failed && !run@.failed_in_tier && tier_idx + 1 < n_tiers && exists|k: int|
            0 <= k < tier@.len() && on_crates_io(cs@, #[trigger] tier@[k]@)),
{
    if run.dry_run() || run.tier_failed() || run.failed_in_tier() || tier_idx >= n_tiers || n_tiers - tier_idx <= 1 {
        return false;
    }
    let mut k: usize = 0;
    while k < tier.len()
        invariant
            k <= tier@.len(),
            !run@.dry_run && !run@.tier_failed && !run@.failed_in_tier && tier_idx + 1 < n_tiers,
            forall|q: int| 0 <= q < k ==> !on_crates_io(cs@, #[trigger] tier@[q]@),
        decreases tier@.len() - k,
    {
        let mut i: usize = 0;
        while i < cs.len()
            invariant
                i <= cs@.len(),
                k < tier@.len(),
                !run@.dry_run && !run@.tier_failed && !run@.failed_in_tier && tier_idx + 1 < n_tiers,
                forall|j: int| 0 <= j < i ==> !(cs@[j].name@ == tier@[k as int]@ && cs@[j].registry@ == "crates_io"@),
            decreases cs@.len() - i,
        {
            if eq_str(cs[i].name.as_str(), tier[k].as_str()) && eq_str(cs[i].registry.as_str(), "crates_io") {
                assert(on_crates_io(cs@, tier@[k as int]@));
                return true;
            }
            i = i + 1;
        }
        k = k + 1;
    }
    false
}

/// The names of the dependencies in `deps` that are workspace packages
/// (in `names`), in order.
pub open spec fn ws_dep_names(deps: Seq<Dep>, names: Set<Seq<char>>) -> Seq<Seq<char>>
    decreases deps.len(),
{
    if deps.len() == 0 {
        Seq::empty()
    } else {
        let rest = ws_dep_names(deps.drop_last(), names);
        if names.contains(deps.last().name@) {
            rest.push(deps.last().name@)
        } else {
            rest
        }
    }
}

/// The dependencies of a package that are workspace packages.
pub fn workspace_deps(deps: &Vec<Dep>, names: &Vec<String>) -> (r: Vec<String>)
    ensures
        views(r@) == ws_dep_names(deps@, views(names@).to_set()),
{
    let mut r: Vec<String> = Vec::new();
    let mut i: usize = 0;
    while i < deps.len()
        invariant
            i <= deps@.len(),
            views(r@) == ws_dep_names(deps@.take(i as int), views(names@).to_set()),
        decreases deps@.len() - i,
    {
        assert(deps@.take(i + 1).drop_last() =~= deps@.take(i as int));
        if contains_string(names, deps[i].name.as_str()) {
            r.push(deps[i].name.clone());
            assert(views(r@) =~= ws_dep_names(deps@.take(i as int), views(names@).to_set()).push(deps@[i as int].name@));
        }
        i = i + 1;
    }
    assert(deps@.take(deps@.len() as int) =~= deps@);
    r
}

/// The manifests in `ms` whose names are in `names`, in order.
pub open spec fn manifests_in(ms: Seq<PackageManifest>, names: Set<Seq<char>>) -> Seq<PackageManifest>
    decreases ms.len(),
{
    if ms.len() == 0 {
        Seq::empty()
    } else {
        let rest = manifests_in(ms.drop_last(), names);
        if names.contains(ms.last().name@) {
            rest.push(ms.last())
        } else {
            rest
        }
    }
}

/// The manifests of the selected packages, in workspace order, for the
/// publish order.
pub fn selected_manifests(ms: &Vec<PackageManifest>, selected: &Vec<String>) -> (r: Vec<PackageManifest>)
    ensures
        r@.len() == manifests_in(ms@, views(selected@).to_set()).len(),
        forall|k: int| 0 <= k < r@.len() ==> {
            let m = #[trigger] manifests_in(ms@, views(selected@).to_set())[k];
            &&& r@[k].kind == m.kind
            &&& r@[k].name == m.name
            &&& r@[k].version == m.version
            &&& r@[k].deps@ == m.deps@
        },
{
    let mut r: Vec<PackageManifest> = Vec::new();
    let mut i: usize = 0;
    while i < ms.len()
        invariant
            i <= ms@.len(),
            r@.len() == manifests_in(ms@.take(i as int), views(selected@).to_set()).len(),
            forall|k: int| 0 <= k < r@.len() ==> {
                let m = #[trigger] manifests_in(ms@.take(i as int), views(selected@).to_set())[k];
                &&& r@[k].kind == m.kind
                &&& r@[k].name == m.name
                &&& r@[k].version == m.version
                &&& r@[k].deps@ == m.deps@
            },
        decreases ms@.len() - i,
    {
        assert(ms@.take(i + 1).drop_last() =~= ms@.take(i as int));
        if contains_string(selected, ms[i].name.as_str()) {
            r.push(ms[i].duplicate());
        }
        i = i + 1;
    }
    assert(ms@.take(ms@.len() as int) =~= ms@);
    r
}

} // verus!
