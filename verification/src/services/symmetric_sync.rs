//! Symmetric forge-to-forge sync: the per-repo operations of a diff.

use vstd::prelude::*;

use crate::types::forge::forge_named;
use crate::types::repo::forge_in;
use crate::types::{Forge, Repo};
use crate::text::{lowercase, to_lowercase};

verus! {

/// What a repo needs on the target forge.
#[derive(Debug, Clone, Copy, PartialEq, Eq, Structural)]
pub enum SyncOp {
    Create,
    Update,
    Delete,
    InSync,
}

/// One repo and its operation.
#[derive(Debug, Clone)]
pub struct RepoOp {
    pub repo: Repo,
    pub op: SyncOp,
}

/// The operations that bring a target forge in line with a source.
#[derive(Debug, Clone)]
pub struct SyncDiff {
    pub org: String,
    pub ops: Vec<RepoOp>,
}

/// The repos whose operation is `op`, in order.
pub open spec fn repos_with(ops: Seq<RepoOp>, op: SyncOp) -> Seq<Repo> {
    ops.filter(|o: RepoOp| o.op == op).map_values(|o: RepoOp| o.repo)
}

/// The repos of `ops` whose operation is `op`.
fn select(ops: &Vec<RepoOp>, op: SyncOp) -> (r: Vec<&Repo>)
    ensures
        r@.map_values(|x: &Repo| *x) == repos_with(ops@, op),
{
    let ghost pred = |o: RepoOp| o.op == op;
    let mut out: Vec<&Repo> = Vec::new();
    let mut i: usize = 0;
    while i < ops.len()
        invariant
            i <= ops@.len(),
            pred == (|o: RepoOp| o.op == op),
            out@.map_values(|x: &Repo| *x) == ops@.take(i as int).filter(pred).map_values(
                |o: RepoOp| o.repo,
            ),
        decreases ops@.len() - i,
    {
        proof {
            reveal(Seq::filter);
            assert(ops@.take(i + 1).drop_last() =~= ops@.take(i as int));
        }
        let ghost f = ops@.take(i as int).filter(pred);
        let ghost prev = out@;
        if ops[i].op == op {
            out.push(&ops[i].repo);
            assert(ops@.take(i + 1).filter(pred) == f.push(ops@[i as int]));
            assert(out@.map_values(|x: &Repo| *x) =~= prev.map_values(|x: &Repo| *x).push(ops@[i as int].repo));
            assert(f.push(ops@[i as int]).map_values(|o: RepoOp| o.repo) =~= f.map_values(|o: RepoOp| o.repo).push(ops@[i as int].repo));
        } else {
            assert(ops@.take(i + 1).filter(pred) == f);
        }
        assert(out@.map_values(|x: &Repo| *x) =~= ops@.take(i + 1).filter(pred).map_values(
            |o: RepoOp| o.repo,
        ));
        i = i + 1;
    }
    assert(ops@.take(ops@.len() as int) =~= ops@);
    out
}

impl SyncDiff {
    /// Repos to create on the target.
    pub fn to_create(&self) -> (r: Vec<&Repo>)
        ensures
            r@.map_values(|x: &Repo| *x) == repos_with(self.ops@, SyncOp::Create),
    {
        select(&self.ops, SyncOp::Create)
    }

    /// Repos to update on the target.
    pub fn to_update(&self) -> (r: Vec<&Repo>)
        ensures
            r@.map_values(|x: &Repo| *x) == repos_with(self.ops@, SyncOp::Update),
    {
        select(&self.ops, SyncOp::Update)
    }

    /// Repos to delete from the target.
    pub fn to_delete(&self) -> (r: Vec<&Repo>)
        ensures
            r@.map_values(|x: &Repo| *x) == repos_with(self.ops@, SyncOp::Delete),
    {
        select(&self.ops, SyncOp::Delete)
    }

    /// Repos already in sync.
    pub fn in_sync(&self) -> (r: Vec<&Repo>)
        ensures
            r@.map_values(|x: &Repo| *x) == repos_with(self.ops@, SyncOp::InSync),
    {
        select(&self.ops, SyncOp::InSync)
    }

    /// The operations a sync carries out on the target forge, in order:
    /// none in a dry run, else every operation that is not `InSync`
    /// (each a create, an update or a delete of its repo).
    pub fn calls(&self, dry_run: bool) -> (r: Vec<&RepoOp>)
        ensures
            dry_run ==> r@.len() == 0,
            !dry_run ==> r@.map_values(|x: &RepoOp| *x) == self.ops@.filter(
                |o: RepoOp| o.op != SyncOp::InSync,
            ),
    {
        let mut out: Vec<&RepoOp> = Vec::new();
        if dry_run {
            return out;
        }
        let ghost pred = |o: RepoOp| o.op != SyncOp::InSync;
        let mut i: usize = 0;
        while i < self.ops.len()
            invariant
                i <= self.ops@.len(),
                pred == (|o: RepoOp| o.op != SyncOp::InSync),
                out@.map_values(|x: &RepoOp| *x) == self.ops@.take(i as int).filter(pred),
            decreases self.ops@.len() - i,
        {
            proof {
                reveal(Seq::filter);
                assert(self.ops@.take(i + 1).drop_last() =~= self.ops@.take(i as int));
            }
            let ghost f = self.ops@.take(i as int).filter(pred);
            let ghost prev = out@;
            if self.ops[i].op != SyncOp::InSync {
                out.push(&self.ops[i]);
                assert(self.ops@.take(i + 1).filter(pred) == f.push(self.ops@[i as int]));
                assert(out@.map_values(|x: &RepoOp| *x) =~= prev.map_values(|x: &RepoOp| *x).push(
                    self.ops@[i as int],
                ));
            } else {
                assert(self.ops@.take(i + 1).filter(pred) == f);
            }
            i = i + 1;
        }
        assert(self.ops@.take(self.ops@.len() as int) =~= self.ops@);
        out
    }

    /// Whether some repo needs an operation.
    pub fn has_changes(&self) -> (b: bool)
        ensures
            b == any_change(self.ops@),
    {
        let mut i: usize = 0;
        while i < self.ops.len()
            invariant
                i <= self.ops@.len(),
                forall|j: int| 0 <= j < i ==> self.ops@[j].op == SyncOp::InSync,
            decreases self.ops@.len() - i,
        {
            if self.ops[i].op != SyncOp::InSync {
                return true;
            }
            i = i + 1;
        }
        false
    }
}

/// Whether some operation of `ops` is not `InSync`.
pub open spec fn any_change(ops: Seq<RepoOp>) -> bool {
    exists|i: int| 0 <= i < ops.len() && ops[i].op != SyncOp::InSync
}

proof fn lemma_ops_partition(ops: Seq<RepoOp>)
    ensures
        repos_with(ops, SyncOp::Create).len() + repos_with(ops, SyncOp::Update).len() + repos_with(
            ops,
            SyncOp::Delete,
        ).len() + repos_with(ops, SyncOp::InSync).len() == ops.len(),
        any_change(ops) <==> !(repos_with(ops, SyncOp::Create).len() == 0 && repos_with(
            ops,
            SyncOp::Update,
        ).len() == 0 && repos_with(ops, SyncOp::Delete).len() == 0),
    decreases ops.len(),
{
    broadcast use Seq::lemma_filter_push;

    if ops.len() > 0 {
        let init = ops.drop_last();
        let x = ops.last();
        lemma_ops_partition(init);
        assert(ops =~= init.push(x));
        if x.op == SyncOp::InSync {
            if any_change(ops) {
                let i = choose|i: int| 0 <= i < ops.len() && ops[i].op != SyncOp::InSync;
                assert(init[i] == ops[i]);
            }
            if any_change(init) {
                let i = choose|i: int| 0 <= i < init.len() && init[i].op != SyncOp::InSync;
                assert(ops[i] == init[i]);
            }
        } else {
            assert(ops[ops.len() - 1].op != SyncOp::InSync);
        }
    }
}

/// Every operation of a diff falls under exactly one selector: the
/// repos to create, update and delete and those in sync together number
/// the diff's operations, and the diff has changes exactly when one of
/// the first three selectors is not empty.
pub proof fn lemma_selectors_partition(d: SyncDiff)
    ensures
        repos_with(d.ops@, SyncOp::Create).len() + repos_with(d.ops@, SyncOp::Update).len()
            + repos_with(d.ops@, SyncOp::Delete).len() + repos_with(d.ops@, SyncOp::InSync).len()
            == d.ops@.len(),
        any_change(d.ops@) <==> !(repos_with(d.ops@, SyncOp::Create).len() == 0 && repos_with(
            d.ops@,
            SyncOp::Update,
        ).len() == 0 && repos_with(d.ops@, SyncOp::Delete).len() == 0),
{
    lemma_ops_partition(d.ops@);
}

// ---------------------------------------------------------------------
// The diff of a source forge's repos against a target forge's.
// ---------------------------------------------------------------------

/// The index of the last repo named `name` among the first `m` of `t`.
pub open spec fn last_named(t: Seq<Repo>, name: Seq<char>, m: int) -> Option<int>
    decreases m,
{
    if m <= 0 {
        None
    } else if t[m - 1].name@ == name {
        Some(m - 1)
    } else {
        last_named(t, name, m - 1)
    }
}

/// The target repo that a name looks up: the last one of that name (a
/// later repo of the same name replaces an earlier one).
pub open spec fn target_index(t: Seq<Repo>, name: Seq<char>) -> Option<int> {
    last_named(t, name, t.len() as int)
}

/// The description as text.
pub open spec fn description_of(r: Repo) -> Option<Seq<char>> {
    match r.description {
        Some(d) => Some(d@),
        None => None,
    }
}

/// Two repos differ where a sync would change something: in description
/// or visibility.
pub open spec fn differs(a: Repo, b: Repo) -> bool {
    description_of(a) != description_of(b) || a.visibility != b.visibility
}

/// The names of target repos that the first `n` source repos claim: a
/// source repo claims its name when the target has it and no earlier
/// source repo claimed it.
pub open spec fn claimed(src: Seq<Repo>, t: Seq<Repo>, n: int) -> Set<Seq<char>>
    decreases n,
{
    if n <= 0 {
        Set::empty()
    } else {
        let prev = claimed(src, t, n - 1);
        let name = src[n - 1].name@;
        if target_index(t, name) is Some && !prev.contains(name) {
            prev.insert(name)
        } else {
            prev
        }
    }
}

/// The operations for the first `n` source repos: one staged for deletion
/// is deleted where the target still has it and skipped otherwise; any
/// other is updated or found in sync where the target has it, and created
/// where it does not.
pub open spec fn source_ops(src: Seq<Repo>, t: Seq<Repo>, n: int) -> Seq<RepoOp>
    decreases n,
{
    if n <= 0 {
        Seq::empty()
    } else {
        let prev = source_ops(src, t, n - 1);
        let r = src[n - 1];
        let present = target_index(t, r.name@) is Some && !claimed(src, t, n - 1).contains(r.name@);
        if r.staged_for_deletion {
            if present {
                prev.push(RepoOp { repo: r, op: SyncOp::Delete })
            } else {
                prev
            }
        } else if present {
            let other = t[target_index(t, r.name@)->0];
            prev.push(
                RepoOp { repo: r, op: if differs(r, other) { SyncOp::Update } else { SyncOp::InSync } },
            )
        } else {
            prev.push(RepoOp { repo: r, op: SyncOp::Create })
        }
    }
}

/// The target repos among the first `m` that no source repo claimed, one
/// per name (the one the name looks up), in target order.
pub open spec fn unclaimed(t: Seq<Repo>, taken: Set<Seq<char>>, m: int) -> Seq<Repo>
    decreases m,
{
    if m <= 0 {
        Seq::empty()
    } else {
        let prev = unclaimed(t, taken, m - 1);
        let r = t[m - 1];
        if target_index(t, r.name@) == Some(m - 1) && !taken.contains(r.name@) {
            prev.push(r)
        } else {
            prev
        }
    }
}

/// The full diff: the source repos' operations, then a deletion for each
/// target repo that the source does not have.
pub open spec fn diff_ops(src: Seq<Repo>, t: Seq<Repo>) -> Seq<RepoOp> {
    source_ops(src, t, src.len() as int) + unclaimed(t, claimed(src, t, src.len() as int), t.len() as int).map_values(
        |r: Repo| RepoOp { repo: r, op: SyncOp::Delete },
    )
}

proof fn lemma_last_named(t: Seq<Repo>, name: Seq<char>, m: int)
    requires
        m <= t.len(),
    ensures
        last_named(t, name, m) matches Some(j) ==> 0 <= j < m && t[j].name@ == name,
        last_named(t, name, m) is None ==> forall|j: int| 0 <= j < m ==> t[j].name@ != name,
    decreases m,
{
    if m > 0 {
        lemma_last_named(t, name, m - 1);
    }
}

proof fn lemma_claimed_present(src: Seq<Repo>, t: Seq<Repo>, n: int, name: Seq<char>)
    requires
        claimed(src, t, n).contains(name),
    ensures
        target_index(t, name) is Some,
    decreases n,
{
    if n > 0 {
        let prev = claimed(src, t, n - 1);
        if prev.contains(name) {
            lemma_claimed_present(src, t, n - 1, name);
        }
    }
}

/// No two repos of `s` share a name.
pub open spec fn names_unique(s: Seq<Repo>) -> bool {
    forall|i: int, j: int| 0 <= i < j < s.len() ==> s[i].name@ != s[j].name@
}

proof fn lemma_unique_index(s: Seq<Repo>, k: int, m: int)
    requires
        names_unique(s),
        0 <= k < m <= s.len(),
    ensures
        last_named(s, s[k].name@, m) == Some(k),
    decreases m,
{
    if m - 1 != k {
        assert(s[m - 1].name@ != s[k].name@);
        lemma_unique_index(s, k, m - 1);
    }
}

proof fn lemma_claimed_self(s: Seq<Repo>, n: int)
    requires
        names_unique(s),
        0 <= n <= s.len(),
    ensures
        forall|name: Seq<char>|
            #[trigger] claimed(s, s, n).contains(name) <==> exists|j: int| 0 <= j < n && s[j].name@ == name,
    decreases n,
{
    if n > 0 {
        lemma_claimed_self(s, n - 1);
        lemma_unique_index(s, n - 1, s.len() as int);
        let name = s[n - 1].name@;
        assert(!claimed(s, s, n - 1).contains(name));
        assert forall|x: Seq<char>|
            #[trigger] claimed(s, s, n).contains(x) <==> exists|j: int| 0 <= j < n && s[j].name@ == x by {
            if x == name {
                assert(s[n - 1].name@ == x);
            } else if exists|j: int| 0 <= j < n && s[j].name@ == x {
                let j = choose|j: int| 0 <= j < n && s[j].name@ == x;
                assert(j != n - 1);
            }
        }
    }
}

/// Operation `o` carries a repo as the listings have it: a create, an
/// update or an in-sync entry carries a source repo that is not staged
/// for deletion, and an update also has a target repo of that name whose
/// description or visibility differs from it; a deletion carries a source
/// repo staged for deletion or a target repo.
pub open spec fn carried_from(o: RepoOp, src: Seq<Repo>, t: Seq<Repo>) -> bool {
    match o.op {
        SyncOp::Delete => (exists|j: int| 0 <= j < src.len() && src[j] == o.repo && src[j].staged_for_deletion)
            || (exists|k: int| 0 <= k < t.len() && t[k] == o.repo),
        SyncOp::Update => (exists|j: int| 0 <= j < src.len() && src[j] == o.repo && !src[j].staged_for_deletion)
            && exists|k: int|
            0 <= k < t.len() && t[k].name@ == o.repo.name@ && (description_of(o.repo) != description_of(t[k])
                || o.repo.visibility != t[k].visibility),
        _ => exists|j: int| 0 <= j < src.len() && src[j] == o.repo && !src[j].staged_for_deletion,
    }
}

proof fn lemma_source_ops_carry(src: Seq<Repo>, t: Seq<Repo>, n: int)
    requires
        0 <= n <= src.len(),
    ensures
        forall|i: int| 0 <= i < source_ops(src, t, n).len() ==> carried_from(#[trigger] source_ops(src, t, n)[i], src, t),
    decreases n,
{
    if n > 0 {
        lemma_source_ops_carry(src, t, n - 1);
        let prev = source_ops(src, t, n - 1);
        let ops = source_ops(src, t, n);
        let r = src[n - 1];
        lemma_last_named(t, r.name@, t.len() as int);
        assert forall|i: int| 0 <= i < ops.len() implies carried_from(#[trigger] ops[i], src, t) by {
            if i < prev.len() {
                assert(ops[i] == prev[i]);
            } else {
                assert(src[n - 1] == ops[i].repo);
                if ops[i].op == SyncOp::Update {
                    let k = target_index(t, r.name@)->0;
                    assert(t[k].name@ == ops[i].repo.name@);
                }
            }
        }
    }
}

proof fn lemma_unclaimed_in_target(t: Seq<Repo>, taken: Set<Seq<char>>, m: int)
    requires
        m <= t.len(),
    ensures
        forall|i: int|
            0 <= i < unclaimed(t, taken, m).len() ==> exists|k: int|
                0 <= k < t.len() && t[k] == #[trigger] unclaimed(t, taken, m)[i],
    decreases m,
{
    if m > 0 {
        lemma_unclaimed_in_target(t, taken, m - 1);
        let prev = unclaimed(t, taken, m - 1);
        let u = unclaimed(t, taken, m);
        assert forall|i: int| 0 <= i < u.len() implies exists|k: int| 0 <= k < t.len() && t[k] == #[trigger] u[i] by {
            if i < prev.len() {
                assert(u[i] == prev[i]);
            } else {
                assert(t[m - 1] == u[i]);
            }
        }
    }
}

/// Every operation of a diff carries a repo exactly as one of the two
/// listings has it: what a create, an update or an in-sync entry carries
/// is a source repo (so an update writes the source's description and
/// visibility to the target, whose same-named repo differs in one of
/// them), and what a deletion carries is a source repo staged for
/// deletion or a target repo.
pub proof fn lemma_diff_carries_listed_repos(src: Seq<Repo>, t: Seq<Repo>)
    ensures
        forall|i: int| 0 <= i < diff_ops(src, t).len() ==> carried_from(#[trigger] diff_ops(src, t)[i], src, t),
{
    let a = source_ops(src, t, src.len() as int);
    let u = unclaimed(t, claimed(src, t, src.len() as int), t.len() as int);
    let d = diff_ops(src, t);
    lemma_source_ops_carry(src, t, src.len() as int);
    lemma_unclaimed_in_target(t, claimed(src, t, src.len() as int), t.len() as int);
    assert forall|i: int| 0 <= i < d.len() implies carried_from(#[trigger] d[i], src, t) by {
        if i < a.len() {
            assert(d[i] == a[i]);
        } else {
            assert(d[i].repo == u[i - a.len()]);
            assert(d[i].op == SyncOp::Delete);
        }
    }
}

/// Diffing a listing against itself, where no repo is staged for
/// deletion and no name repeats, finds every repo in sync and deletes
/// nothing.
pub proof fn lemma_diff_self_in_sync(s: Seq<Repo>)
    requires
        names_unique(s),
        forall|i: int| 0 <= i < s.len() ==> !(#[trigger] s[i]).staged_for_deletion,
    ensures
        diff_ops(s, s) == s.map_values(|r: Repo| RepoOp { repo: r, op: SyncOp::InSync }),
{
    assert forall|n: int| 0 <= n <= s.len() implies #[trigger] source_ops(s, s, n) == s.take(n).map_values(
        |r: Repo| RepoOp { repo: r, op: SyncOp::InSync },
    ) by {
        lemma_source_ops_self(s, n);
    }
    assert(s.take(s.len() as int) =~= s);
    lemma_claimed_self(s, s.len() as int);
    lemma_unclaimed_empty(s, s.len() as int);
    assert(unclaimed(s, claimed(s, s, s.len() as int), s.len() as int).map_values(
        |r: Repo| RepoOp { repo: r, op: SyncOp::Delete },
    ) =~= Seq::<RepoOp>::empty());
    assert(diff_ops(s, s) =~= s.map_values(|r: Repo| RepoOp { repo: r, op: SyncOp::InSync }));
}

proof fn lemma_source_ops_self(s: Seq<Repo>, n: int)
    requires
        names_unique(s),
        forall|i: int| 0 <= i < s.len() ==> !(#[trigger] s[i]).staged_for_deletion,
        0 <= n <= s.len(),
    ensures
        source_ops(s, s, n) == s.take(n).map_values(|r: Repo| RepoOp { repo: r, op: SyncOp::InSync }),
    decreases n,
{
    if n > 0 {
        lemma_source_ops_self(s, n - 1);
        lemma_unique_index(s, n - 1, s.len() as int);
        lemma_claimed_self(s, n - 1);
        let name = s[n - 1].name@;
        if claimed(s, s, n - 1).contains(name) {
            let j = choose|j: int| 0 <= j < n - 1 && s[j].name@ == name;
            assert(false);
        }
        assert(!differs(s[n - 1], s[n - 1]));
        assert(s.take(n).map_values(|r: Repo| RepoOp { repo: r, op: SyncOp::InSync }) =~= s.take(n - 1).map_values(
            |r: Repo| RepoOp { repo: r, op: SyncOp::InSync },
        ).push(RepoOp { repo: s[n - 1], op: SyncOp::InSync }));
    }
}

proof fn lemma_unclaimed_empty(s: Seq<Repo>, m: int)
    requires
        names_unique(s),
        0 <= m <= s.len(),
        forall|name: Seq<char>|
            #[trigger] claimed(s, s, s.len() as int).contains(name) <==> exists|j: int|
                0 <= j < s.len() && s[j].name@ == name,
    ensures
        unclaimed(s, claimed(s, s, s.len() as int), m) == Seq::<Repo>::empty(),
    decreases m,
{
    if m > 0 {
        lemma_unclaimed_empty(s, m - 1);
        assert(claimed(s, s, s.len() as int).contains(s[m - 1].name@));
    }
}

/// Against a target with no repos, each source repo not staged for
/// deletion is created, in order, and nothing else happens.
pub proof fn lemma_diff_into_empty(src: Seq<Repo>)
    ensures
        diff_ops(src, Seq::empty()) == src.filter(|r: Repo| !r.staged_for_deletion).map_values(
            |r: Repo| RepoOp { repo: r, op: SyncOp::Create },
        ),
{
    let t = Seq::<Repo>::empty();
    lemma_source_ops_into_empty(src, src.len() as int);
    assert(src.take(src.len() as int) =~= src);
    assert(unclaimed(t, claimed(src, t, src.len() as int), 0) == Seq::<Repo>::empty());
    assert(diff_ops(src, t) =~= source_ops(src, t, src.len() as int));
}

proof fn lemma_source_ops_into_empty(src: Seq<Repo>, n: int)
    requires
        0 <= n <= src.len(),
    ensures
        source_ops(src, Seq::empty(), n) == src.take(n).filter(|r: Repo| !r.staged_for_deletion).map_values(
            |r: Repo| RepoOp { repo: r, op: SyncOp::Create },
        ),
    decreases n,
{
    reveal(Seq::filter);
    if n > 0 {
        lemma_source_ops_into_empty(src, n - 1);
        let f = |r: Repo| !r.staged_for_deletion;
        let g = |r: Repo| RepoOp { repo: r, op: SyncOp::Create };
        assert(src.take(n).drop_last() =~= src.take(n - 1));
        assert(src.take(n).last() == src[n - 1]);
        if f(src[n - 1]) {
            assert(src.take(n).filter(f) == src.take(n - 1).filter(f).push(src[n - 1]));
            assert(src.take(n).filter(f).map_values(g) =~= src.take(n - 1).filter(f).map_values(g).push(
                g(src[n - 1]),
            ));
        } else {
            assert(src.take(n).filter(f) == src.take(n - 1).filter(f));
        }
    } else {
        assert(src.take(0).filter(|r: Repo| !r.staged_for_deletion) =~= Seq::<Repo>::empty());
    }
}

/// From an empty source, every target repo is deleted (one per name).
pub proof fn lemma_diff_from_empty(t: Seq<Repo>)
    requires
        names_unique(t),
    ensures
        diff_ops(Seq::empty(), t) == t.map_values(|r: Repo| RepoOp { repo: r, op: SyncOp::Delete }),
{
    let e = Seq::<Repo>::empty();
    assert(claimed(e, t, 0) == Set::<Seq<char>>::empty());
    lemma_unclaimed_all(t, t.len() as int);
    assert(t.take(t.len() as int) =~= t);
    assert(diff_ops(e, t) =~= t.map_values(|r: Repo| RepoOp { repo: r, op: SyncOp::Delete }));
}

proof fn lemma_unclaimed_all(t: Seq<Repo>, m: int)
    requires
        names_unique(t),
        0 <= m <= t.len(),
    ensures
        unclaimed(t, Set::empty(), m) == t.take(m),
    decreases m,
{
    if m > 0 {
        lemma_unclaimed_all(t, m - 1);
        lemma_unique_index(t, m - 1, t.len() as int);
        assert(t.take(m) =~= t.take(m - 1).push(t[m - 1]));
    }
}

/// Whether two repos differ in description or visibility.
pub fn repos_differ(a: &Repo, b: &Repo) -> (r: bool)
    ensures
        r == differs(*a, *b),
{
    let same_description = match (&a.description, &b.description) {
        (Some(x), Some(y)) => crate::text::eq_str(x.as_str(), y.as_str()),
        (None, None) => true,
        _ => false,
    };
    !same_description || a.visibility != b.visibility
}

/// The index of the last repo of `t` named `name`.
fn last_index(t: &Vec<Repo>, name: &String) -> (r: Option<usize>)
    ensures
        match r {
            Some(j) => target_index(t@, name@) == Some(j as int),
            None => target_index(t@, name@) is None,
        },
{
    let mut k: usize = t.len();
    while k > 0
        invariant
            k <= t@.len(),
            target_index(t@, name@) == last_named(t@, name@, k as int),
        decreases k,
    {
        if crate::text::eq_str(t[k - 1].name.as_str(), name.as_str()) {
            return Some(k - 1);
        }
        k = k - 1;
    }
    None
}

/// Whether `r` belongs on `forge`: it is not staged for deletion and has
/// the forge as origin or as a mirror.
pub open spec fn belongs_on(r: Repo, forge: Forge) -> bool {
    !r.staged_for_deletion && (r.origin == forge || r.mirrors@.contains(forge))
}

/// The repos of `all` that belong on the forge named `forge_name`
/// (compared without case), in order; `None` for a name that is not one
/// of the three forges.
pub fn repos_for_forge(all: &Vec<Repo>, forge_name: &str) -> (r: Option<Vec<Repo>>)
    ensures
        match forge_named(lowercase(forge_name@)) {
            None => r is None,
            Some(f) => r matches Some(v) && v@.len() == all@.filter(|x: Repo| belongs_on(x, f)).len()
                && forall|i: int|
                0 <= i < v@.len() ==> (#[trigger] v@[i]).same_as(all@.filter(|x: Repo| belongs_on(x, f))[i]),
        },
{
    let lower = to_lowercase(forge_name);
    let f = match Forge::from_lowercase(lower.as_str()) {
        Some(f) => f,
        None => {
            return None;
        },
    };
    let ghost pred = |x: Repo| belongs_on(x, f);
    let mut out: Vec<Repo> = Vec::new();
    let mut i: usize = 0;
    while i < all.len()
        invariant
            i <= all@.len(),
            pred == (|x: Repo| belongs_on(x, f)),
            out@.len() == all@.take(i as int).filter(pred).len(),
            forall|j: int| 0 <= j < out@.len() ==> (#[trigger] out@[j]).same_as(all@.take(i as int).filter(pred)[j]),
        decreases all@.len() - i,
    {
        proof {
            reveal(Seq::filter);
            assert(all@.take(i + 1).drop_last() =~= all@.take(i as int));
        }
        let ghost before = all@.take(i as int).filter(pred);
        let r = &all[i];
        if !r.staged_for_deletion && (r.origin == f || forge_in(&r.mirrors, f)) {
            out.push(r.duplicate());
            assert(all@.take(i + 1).filter(pred) == before.push(all@[i as int]));
        } else {
            assert(all@.take(i + 1).filter(pred) == before);
        }
        i = i + 1;
    }
    assert(all@.take(all@.len() as int) =~= all@);
    Some(out)
}

/// The symmetric sync service (the forge calls are the caller's).
#[derive(Debug, Clone, Copy)]
pub struct SymmetricSyncService;

impl SymmetricSyncService {
    pub fn new() -> (s: SymmetricSyncService) {
        SymmetricSyncService
    }

    /// The operations that make the target forge's repos match the
    /// source's, given both forges' listings of `org`: each source repo
    /// in order (see `source_ops`), then a deletion for every target repo
    /// that no source repo names.
    pub fn diff(&self, source_repos: Vec<Repo>, target_repos: Vec<Repo>, org: &str) -> (d: SyncDiff)
        ensures
            d.org@ == org@,
            d.ops@ == diff_ops(source_repos@, target_repos@),
            forall|i: int| 0 <= i < d.ops@.len() ==> carried_from(#[trigger] d.ops@[i], source_repos@, target_repos@),
    {
        let ghost s0 = source_repos@;
        let ghost t0 = target_repos@;
        let d = Self::diff_listings(source_repos, target_repos, org);
        proof {
            lemma_diff_carries_listed_repos(s0, t0);
        }
        d
    }

    /// The operations of `diff`, computed.
    fn diff_listings(source_repos: Vec<Repo>, target_repos: Vec<Repo>, org: &str) -> (d: SyncDiff)
        ensures
            d.org@ == org@,
            d.ops@ == diff_ops(source_repos@, target_repos@),
    {
        let ghost s0 = source_repos@;
        let ghost t0 = target_repos@;
        let t = target_repos;
        let mut taken: Vec<bool> = Vec::new();
        let mut j: usize = 0;
        while j < t.len()
            invariant
                j <= t@.len(),
                taken@.len() == j,
                forall|x: int| 0 <= x < j ==> !#[trigger] taken@[x],
            decreases t@.len() - j,
        {
            taken.push(false);
            j = j + 1;
        }
        let mut src = source_repos;
        let n: usize = src.len();
        let mut ops: Vec<RepoOp> = Vec::new();
        let mut i: usize = 0;
        while src.len() > 0
            invariant
                t@ == t0,
                s0.len() == n,
                i + src@.len() == s0.len(),
                src@ == s0.subrange(i as int, s0.len() as int),
                taken@.len() == t0.len(),
                forall|x: int|
                    0 <= x < t0.len() ==> #[trigger] taken@[x] == (target_index(t0, t0[x].name@) == Some(x)
                        && claimed(s0, t0, i as int).contains(t0[x].name@)),
                ops@ == source_ops(s0, t0, i as int),
            decreases src@.len(),
        {
            let r = src.remove(0);
            assert(r == s0[i as int]);
            let ghost prev_taken = claimed(s0, t0, i as int);
            let found = last_index(&t, &r.name);
            let mut present = false;
            let mut at: usize = 0;
            match found {
                Some(x) => {
                    proof {
                        lemma_last_named(t0, r.name@, t0.len() as int);
                    }
                    if !taken[x] {
                        present = true;
                        at = x;
                    } else {
                        assert(prev_taken.contains(r.name@));
                    }
                },
                None => {},
            }
            proof {
                if present {
                    if prev_taken.contains(r.name@) {
                        assert(taken@[at as int]);
                    }
                }
            }
            assert(present == (target_index(t0, r.name@) is Some && !prev_taken.contains(r.name@)));
            if present {
                let ghost new_taken = prev_taken.insert(r.name@);
                assert(claimed(s0, t0, i + 1) == new_taken);
                taken.set(at, true);
                assert forall|x: int| 0 <= x < t0.len() implies #[trigger] taken@[x] == (target_index(
                    t0,
                    t0[x].name@,
                ) == Some(x) && new_taken.contains(t0[x].name@)) by {
                    if x != at as int && t0[x].name@ == r.name@ {
                        assert(target_index(t0, t0[x].name@) == Some(at as int));
                    }
                }
                if r.staged_for_deletion {
                    ops.push(RepoOp { repo: r, op: SyncOp::Delete });
                } else {
                    let op = if repos_differ(&r, &t[at]) {
                        SyncOp::Update
                    } else {
                        SyncOp::InSync
                    };
                    ops.push(RepoOp { repo: r, op });
                }
            } else {
                assert(claimed(s0, t0, i + 1) == prev_taken);
                if !r.staged_for_deletion {
                    ops.push(RepoOp { repo: r, op: SyncOp::Create });
                }
            }
            i = i + 1;
        }
        assert(i == s0.len());
        let ghost done = claimed(s0, t0, s0.len() as int);
        let mut keep: Vec<bool> = Vec::new();
        let mut k: usize = 0;
        while k < t.len()
            invariant
                t@ == t0,
                k <= t0.len(),
                keep@.len() == k,
                taken@.len() == t0.len(),
                forall|x: int|
                    0 <= x < t0.len() ==> #[trigger] taken@[x] == (target_index(t0, t0[x].name@) == Some(x)
                        && done.contains(t0[x].name@)),
                forall|x: int|
                    0 <= x < k ==> #[trigger] keep@[x] == (target_index(t0, t0[x].name@) == Some(x)
                        && !done.contains(t0[x].name@)),
            decreases t0.len() - k,
        {
            let last = last_index(&t, &t[k].name);
            let is_last = match last {
                Some(x) => x == k,
                None => false,
            };
            keep.push(is_last && !taken[k]);
            k = k + 1;
        }
        let ghost head = ops@;
        let tn: usize = t.len();
        let mut rest = t;
        let mut m: usize = 0;
        while rest.len() > 0
            invariant
                t0.len() == tn,
                m + rest@.len() == t0.len(),
                rest@ == t0.subrange(m as int, t0.len() as int),
                keep@.len() == t0.len(),
                forall|x: int|
                    0 <= x < t0.len() ==> #[trigger] keep@[x] == (target_index(t0, t0[x].name@) == Some(x)
                        && !done.contains(t0[x].name@)),
                ops@ == head + unclaimed(t0, done, m as int).map_values(
                    |r: Repo| RepoOp { repo: r, op: SyncOp::Delete },
                ),
            decreases rest@.len(),
        {
            let r = rest.remove(0);
            assert(r == t0[m as int]);
            let ghost before = unclaimed(t0, done, m as int);
            if keep[m] {
                ops.push(RepoOp { repo: r, op: SyncOp::Delete });
                assert(unclaimed(t0, done, m + 1) == before.push(t0[m as int]));
                assert(ops@ =~= head + unclaimed(t0, done, m + 1).map_values(
                    |r: Repo| RepoOp { repo: r, op: SyncOp::Delete },
                ));
            } else {
                assert(unclaimed(t0, done, m + 1) == before);
            }
            m = m + 1;
        }
        SyncDiff { org: org.to_owned(), ops }
    }
}

} // verus!
