//! Publish pre-flight gates.
//!
//! Three gates, each producing a [`Finding`] with a stable `code`:
//!
//! | code                 | catches                                        |
//! |----------------------|------------------------------------------------|
//! | `dirty_worktree`     | uncommitted changes (names the files)          |
//! | `version_regression` | local version < registry latest                |
//! | `unpushed_commits`   | HEAD ahead of upstream / no upstream at all    |
//!
//! Also here: the consumer-pin report (which workspace members pin a
//! just-published package, and whether their requirement admits the
//! new version) and the consumer-canary stub message.
//!
//! The git state the gates read is gathered by the program around this
//! library and handed to [`run_preflight`].

use vstd::prelude::*;

use super::manifest::{Dep, PackageManifest};
use super::registry::{version_order, version_order_of};
use super::release::{version_core, version_core_end};
use crate::text::{
    char_is_digit, concat, decimal, is_digit, join, join_strings, parse_u64, parse_u64_range,
    split, split_ranges, to_chars, trim, trim_range, u64_to_string, views,
};
use crate::v5::ops::git::{GitError, StatusSnapshot};

verus! {

/// Maximum number of dirty paths named inline before eliding.
pub const MAX_NAMED_PATHS: usize = 10;

/// A single named pre-flight failure.
#[derive(Debug, Clone)]
pub struct Finding {
    /// Stable machine code: `dirty_worktree` | `version_regression`
    /// | `unpushed_commits` | `git_error`.
    pub code: String,
    /// Human-readable detail (names files / branches / versions).
    pub message: String,
}

/// A finding as its code and message.
pub open spec fn finding_pair(f: Finding) -> (Seq<char>, Seq<char>) {
    (f.code@, f.message@)
}

/// The message of a dirty worktree: the count, the first ten paths and
/// how many more there are.
pub open spec fn dirty_message(pkg: Seq<char>, paths: Seq<Seq<char>>) -> Seq<char> {
    let shown = if paths.len() > 10 {
        paths.take(10)
    } else {
        paths
    };
    let suffix = if paths.len() > 10 {
        " (+"@ + decimal((paths.len() - 10) as nat) + " more)"@
    } else {
        Seq::<char>::empty()
    };
    pkg + ": working tree has "@ + decimal(paths.len()) + " uncommitted path(s): "@ + join(
        shown,
        ", "@,
    ) + suffix + ". Commit or stash before publishing (no --allow-dirty)."@
}

/// Gate 1: dirty worktree. `paths` is the porcelain file list
/// (modified, staged, or untracked). Empty passes.
pub fn dirty_worktree_finding(pkg_name: &str, paths: &[String]) -> (r: Option<Finding>)
    ensures
        match r {
            None => paths@.len() == 0,
            Some(f) => paths@.len() > 0 && f.code@ == "dirty_worktree"@ && f.message@
                == dirty_message(pkg_name@, views(paths@)),
        },
{
    if paths.len() == 0 {
        return None;
    }
    let mut named: Vec<String> = Vec::new();
    let limit = if paths.len() > MAX_NAMED_PATHS {
        MAX_NAMED_PATHS
    } else {
        paths.len()
    };
    let mut i: usize = 0;
    while i < limit
        invariant
            i <= limit <= paths@.len(),
            limit == (if paths@.len() > 10 {
                10
            } else {
                paths@.len()
            }),
            views(named@) == views(paths@).take(i as int),
        decreases limit - i,
    {
        let ghost prev = named@;
        named.push(paths[i].clone());
        assert(views(named@) =~= views(prev).push(paths@[i as int]@));
        assert(views(paths@).take(i + 1) =~= views(paths@).take(i as int).push(paths@[i as int]@));
        i = i + 1;
    }
    if paths.len() <= 10 {
        assert(views(paths@).take(limit as int) =~= views(paths@));
    }
    let suffix = if paths.len() > MAX_NAMED_PATHS {
        let n = u64_to_string((paths.len() - MAX_NAMED_PATHS) as u64);
        let a = concat(" (+", n.as_str());
        concat(a.as_str(), " more)")
    } else {
        String::new()
    };
    let count = u64_to_string(paths.len() as u64);
    let listed = join_strings(&named, ", ");
    let m1 = concat(pkg_name, ": working tree has ");
    let m2 = concat(m1.as_str(), count.as_str());
    let m3 = concat(m2.as_str(), " uncommitted path(s): ");
    let m4 = concat(m3.as_str(), listed.as_str());
    let m5 = concat(m4.as_str(), suffix.as_str());
    let message = concat(m5.as_str(), ". Commit or stash before publishing (no --allow-dirty).");
    Some(Finding { code: "dirty_worktree".to_owned(), message })
}

/// The message of a version below the registry's.
pub open spec fn regression_message(pkg: Seq<char>, local: Seq<char>, published: Seq<char>) -> Seq<
    char,
> {
    pkg + ": local version "@ + local + " is BELOW registry latest "@ + published
        + ". Set an honest next version (greater than "@ + published + ") before publishing."@
}

/// Gate 2: version monotonicity vs the registry. A local version
/// strictly below the published latest is refused.
pub fn version_regression_finding(pkg_name: &str, local: &str, published: Option<&str>) -> (r:
    Option<Finding>)
    ensures
        match r {
            None => match published {
                None => true,
                Some(p) => version_order(local@, p@) != -1,
            },
            Some(f) => match published {
                None => false,
                Some(p) => version_order(local@, p@) == -1 && f.code@ == "version_regression"@
                    && f.message@ == regression_message(pkg_name@, local@, p@),
            },
        },
{
    let pub_ver = match published {
        Some(p) => p,
        None => return None,
    };
    if version_order_of(local, pub_ver) == -1 {
        let m1 = concat(pkg_name, ": local version ");
        let m2 = concat(m1.as_str(), local);
        let m3 = concat(m2.as_str(), " is BELOW registry latest ");
        let m4 = concat(m3.as_str(), pub_ver);
        let m5 = concat(m4.as_str(), ". Set an honest next version (greater than ");
        let m6 = concat(m5.as_str(), pub_ver);
        let message = concat(m6.as_str(), ") before publishing.");
        return Some(Finding { code: "version_regression".to_owned(), message });
    }
    None
}

/// The branch named in an unpushed finding.
pub open spec fn branch_label(branch: Option<&str>) -> Seq<char> {
    match branch {
        Some(b) => b@,
        None => "(detached HEAD)"@,
    }
}

/// The message of a branch without upstream.
pub open spec fn no_upstream_message(pkg: Seq<char>, branch: Seq<char>) -> Seq<char> {
    pkg + ": branch '"@ + branch
        + "' has no upstream \u{2014} nothing on any forge tracks this publish source. Push the branch first."@
}

/// The message of a branch ahead of its upstream.
pub open spec fn ahead_message(pkg: Seq<char>, branch: Seq<char>, ahead: u32, up: Seq<char>) -> Seq<
    char,
> {
    pkg + ": branch '"@ + branch + "' is "@ + decimal(ahead as nat) + " commit(s) ahead of "@ + up
        + ". Push before publishing so the forge matches the registry."@
}

/// Gate 3: unpushed commits. HEAD must have an upstream and be level
/// with it ("behind" is fine).
pub fn unpushed_finding(pkg_name: &str, branch: Option<&str>, upstream: Option<&str>, ahead: u32) -> (r:
    Option<Finding>)
    ensures
        match upstream {
            None => r is Some && r->0.code@ == "unpushed_commits"@ && r->0.message@
                == no_upstream_message(pkg_name@, branch_label(branch)),
            Some(up) => if ahead > 0 {
                r is Some && r->0.code@ == "unpushed_commits"@ && r->0.message@ == ahead_message(
                    pkg_name@,
                    branch_label(branch),
                    ahead,
                    up@,
                )
            } else {
                r is None
            },
        },
{
    let branch_name = match branch {
        Some(b) => b,
        None => "(detached HEAD)",
    };
    match upstream {
        None => {
            let m1 = concat(pkg_name, ": branch '");
            let m2 = concat(m1.as_str(), branch_name);
            let message = concat(
                m2.as_str(),
                "' has no upstream \u{2014} nothing on any forge tracks this publish source. Push the branch first.",
            );
            Some(Finding { code: "unpushed_commits".to_owned(), message })
        },
        Some(up) => {
            if ahead > 0 {
                let n = u64_to_string(ahead as u64);
                let m1 = concat(pkg_name, ": branch '");
                let m2 = concat(m1.as_str(), branch_name);
                let m3 = concat(m2.as_str(), "' is ");
                let m4 = concat(m3.as_str(), n.as_str());
                let m5 = concat(m4.as_str(), " commit(s) ahead of ");
                let m6 = concat(m5.as_str(), up);
                let message = concat(
                    m6.as_str(),
                    ". Push before publishing so the forge matches the registry.",
                );
                Some(Finding { code: "unpushed_commits".to_owned(), message })
            } else {
                None
            }
        },
    }
}

/// A finding for a git state that could not be read.
fn git_error_finding(pkg_name: &str, what: &str, e: &GitError) -> (f: Finding)
    ensures
        f.code@ == "git_error"@,
        f.message@ == pkg_name@ + ": cannot read "@ + what@ + " state: "@ + e.message_view(),
{
    let m1 = concat(pkg_name, ": cannot read ");
    let m2 = concat(m1.as_str(), what);
    let m3 = concat(m2.as_str(), " state: ");
    let em = e.message();
    let message = concat(m3.as_str(), em.as_str());
    Finding { code: "git_error".to_owned(), message }
}

/// What the dirty-worktree gate finds in the list of changed files (or
/// the failure to list them); nothing when `force_dirty` is set.
pub open spec fn dirty_part(pkg: Seq<char>, force_dirty: bool, changed: Result<Seq<Seq<char>>, Seq<char>>) -> Seq<
    (Seq<char>, Seq<char>),
> {
    if force_dirty {
        seq![]
    } else {
        match changed {
            Ok(paths) => if paths.len() > 0 {
                seq![("dirty_worktree"@, dirty_message(pkg, paths))]
            } else {
                seq![]
            },
            Err(m) => seq![("git_error"@, pkg + ": cannot read "@ + "worktree"@ + " state: "@ + m)],
        }
    }
}

/// The finding of the version-regression gate.
pub open spec fn regression_part(pkg: Seq<char>, local: Seq<char>, published: Option<Seq<char>>) -> Seq<
    (Seq<char>, Seq<char>),
> {
    match published {
        Some(p) => if version_order(local, p) == -1 {
            seq![("version_regression"@, regression_message(pkg, local, p))]
        } else {
            seq![]
        },
        None => seq![],
    }
}

/// The finding of the unpushed-commits gate, from the branch status or
/// the error reading it.
pub open spec fn unpushed_part(
    pkg: Seq<char>,
    status: Result<(Option<Seq<char>>, Option<Seq<char>>, u32), Seq<char>>,
) -> Seq<(Seq<char>, Seq<char>)> {
    match status {
        Ok((branch, upstream, ahead)) => {
            let b = match branch {
                Some(b) => b,
                None => "(detached HEAD)"@,
            };
            match upstream {
                None => seq![("unpushed_commits"@, no_upstream_message(pkg, b))],
                Some(up) => if ahead > 0 {
                    seq![("unpushed_commits"@, ahead_message(pkg, b, ahead, up))]
                } else {
                    seq![]
                },
            }
        },
        Err(m) => seq![("git_error"@, pkg + ": cannot read "@ + "branch"@ + " state: "@ + m)],
    }
}

/// The findings of all gates for one package, in gate order. A git
/// error is a `git_error` finding, never a pass.
pub open spec fn preflight_spec(
    pkg: Seq<char>,
    local: Seq<char>,
    published: Option<Seq<char>>,
    force_dirty: bool,
    changed: Result<Seq<Seq<char>>, Seq<char>>,
    status: Result<(Option<Seq<char>>, Option<Seq<char>>, u32), Seq<char>>,
) -> Seq<(Seq<char>, Seq<char>)> {
    dirty_part(pkg, force_dirty, changed) + regression_part(pkg, local, published) + unpushed_part(
        pkg,
        status,
    )
}

/// The changed paths, or the error's message, as plain values.
pub open spec fn changed_view(c: Result<Vec<String>, GitError>) -> Result<Seq<Seq<char>>, Seq<char>> {
    match c {
        Ok(p) => Ok(views(p@)),
        Err(e) => Err(e.message_view()),
    }
}

/// The branch, upstream and ahead count, or the error's message.
pub open spec fn status_arg_view(s: Result<StatusSnapshot, GitError>) -> Result<
    (Option<Seq<char>>, Option<Seq<char>>, u32),
    Seq<char>,
> {
    match s {
        Ok(snap) => Ok(
            (
                match snap.branch {
                    Some(b) => Some(b@),
                    None => None,
                },
                match snap.upstream {
                    Some(u) => Some(u@),
                    None => None,
                },
                snap.ahead,
            ),
        ),
        Err(e) => Err(e.message_view()),
    }
}

/// An optional string as plain values.
pub open spec fn opt_view(o: Option<&str>) -> Option<Seq<char>> {
    match o {
        Some(s) => Some(s@),
        None => None,
    }
}

/// Run all gates for one package checkout, on the git state the caller
/// read. `force_dirty` skips only the dirty-worktree gate; version
/// regression and unpushed commits have no escape hatch.
pub fn run_preflight(
    pkg_name: &str,
    local_version: &str,
    published: Option<&str>,
    force_dirty: bool,
    changed: Result<Vec<String>, GitError>,
    status: Result<StatusSnapshot, GitError>,
) -> (r: Vec<Finding>)
    ensures
        r@.map_values(|f: Finding| finding_pair(f)) =~= preflight_spec(
            pkg_name@,
            local_version@,
            opt_view(published),
            force_dirty,
            changed_view(changed),
            status_arg_view(status),
        ),
{
    proof {
        reveal_strlit("worktree");
        reveal_strlit("branch");
    }
    let ghost pairs = |f: Finding| finding_pair(f);
    let mut findings: Vec<Finding> = Vec::new();
    if !force_dirty {
        match &changed {
            Ok(paths) => {
                match dirty_worktree_finding(pkg_name, paths.as_slice()) {
                    Some(f) => findings.push(f),
                    None => {},
                }
            },
            Err(e) => findings.push(git_error_finding(pkg_name, "worktree", e)),
        }
    }
    let ghost n1 = findings@.map_values(pairs);
    assert(n1 =~= dirty_part(pkg_name@, force_dirty, changed_view(changed)));
    match version_regression_finding(pkg_name, local_version, published) {
        Some(f) => findings.push(f),
        None => {},
    }
    let ghost n2 = findings@.map_values(pairs);
    assert(n2 =~= n1 + regression_part(pkg_name@, local_version@, opt_view(published)));
    match &status {
        Ok(snap) => {
            let b = match &snap.branch {
                Some(b) => Some(b.as_str()),
                None => None,
            };
            let u = match &snap.upstream {
                Some(u) => Some(u.as_str()),
                None => None,
            };
            match unpushed_finding(pkg_name, b, u, snap.ahead) {
                Some(f) => findings.push(f),
                None => {},
            }
        },
        Err(e) => findings.push(git_error_finding(pkg_name, "branch", e)),
    }
    assert(findings@.map_values(pairs) =~= n2 + unpushed_part(pkg_name@, status_arg_view(status)));
    findings
}

/// One workspace consumer of a just-published package.
#[derive(Debug, Clone)]
pub struct ConsumerPin {
    /// The consuming package's name.
    pub consumer: String,
    /// Its declared version requirement on the published package.
    pub requirement: String,
    /// `Some(true)`: the requirement admits the new version;
    /// `Some(false)`: the consumer needs a pin update and a release;
    /// `None`: the requirement could not be interpreted.
    pub admits_new_version: Option<bool>,
}

/// `req` trimmed, without one leading `^`.
pub open spec fn req_body(req: Seq<char>) -> Seq<char> {
    let t = trim(req);
    if t.len() > 0 && t[0] == '^' {
        t.drop_first()
    } else {
        t
    }
}

/// Every character is a digit or a dot.
pub open spec fn digits_and_dots(s: Seq<char>) -> bool {
    forall|i: int| 0 <= i < s.len() ==> is_digit(#[trigger] s[i]) || s[i] == '.'
}

/// Every part read as a `u64`, if all of them read.
pub open spec fn parse_parts(parts: Seq<Seq<char>>) -> Option<Seq<u64>>
    decreases parts.len(),
{
    if parts.len() == 0 {
        Some(seq![])
    } else {
        match (parse_parts(parts.drop_last()), parse_u64(parts.last())) {
            (Some(p), Some(x)) => Some(p.push(x)),
            _ => None,
        }
    }
}

/// The `i`-th component, 0 past the end.
pub open spec fn component(s: Seq<u64>, i: int) -> u64 {
    if 0 <= i < s.len() {
        s[i]
    } else {
        0
    }
}

/// The index of the leftmost non-zero component at or after `i`, or
/// the last index when all are zero.
pub open spec fn caret_index_from(r: Seq<u64>, i: int) -> int
    decreases r.len() - i,
{
    if i >= r.len() - 1 || i < 0 {
        r.len() - 1
    } else if r[i] != 0 {
        i
    } else {
        caret_index_from(r, i + 1)
    }
}

/// The order of `v` against `r` from component `i` on, both padded
/// with zeros to `n` components: 1, 0 or -1.
pub open spec fn padded_order(v: Seq<u64>, r: Seq<u64>, i: int, n: int) -> int
    decreases n - i,
{
    if i >= n {
        0
    } else if component(v, i) > component(r, i) {
        1
    } else if component(v, i) < component(r, i) {
        -1
    } else {
        padded_order(v, r, i + 1, n)
    }
}

/// Caret compatibility: the components up to the leftmost non-zero
/// one of the requirement match exactly, and the version is at least
/// the requirement.
pub open spec fn caret_admits(r: Seq<u64>, v: Seq<u64>) -> bool {
    let idx = caret_index_from(r, 0);
    let n = if r.len() > v.len() {
        r.len()
    } else {
        v.len()
    };
    (forall|i: int| 0 <= i <= idx ==> #[trigger] component(v, i) == r[i]) && padded_order(v, r, 0, n as int) >= 0
}

/// Whether the requirement `req` admits `version`: `None` for a
/// requirement that is not `MAJOR[.MINOR[.PATCH]]` (optionally `^`),
/// or a version whose core is not dotted numbers.
pub open spec fn req_admits_spec(req: Seq<char>, version: Seq<char>) -> Option<bool> {
    let b = req_body(req);
    if b.len() == 0 || !digits_and_dots(b) {
        None
    } else {
        match (parse_parts(split(b, '.')), parse_parts(split(version_core(version), '.'))) {
            (Some(r), Some(v)) => if r.len() == 0 || v.len() == 0 {
                None
            } else {
                Some(caret_admits(r, v))
            },
            _ => None,
        }
    }
}

/// The dotted numbers of `v[lo..hi]`, if every part reads as a `u64`.
fn parse_parts_of(v: &Vec<char>, lo: usize, hi: usize) -> (r: Option<Vec<u64>>)
    requires
        lo <= hi <= v.len(),
    ensures
        match r {
            Some(p) => parse_parts(split(v@.subrange(lo as int, hi as int), '.')) == Some(p@),
            None => parse_parts(split(v@.subrange(lo as int, hi as int), '.')) is None,
        },
{
    let ranges = split_ranges(v, lo, hi, '.');
    let ghost parts = split(v@.subrange(lo as int, hi as int), '.');
    let mut out: Vec<u64> = Vec::new();
    let mut k: usize = 0;
    while k < ranges.len()
        invariant
            k <= ranges@.len(),
            ranges@.len() == parts.len(),
            parts == split(v@.subrange(lo as int, hi as int), '.'),
            lo <= hi <= v@.len(),
            forall|j: int|
                0 <= j < ranges@.len() ==> lo <= #[trigger] ranges@[j].0 <= ranges@[j].1 <= hi
                    && v@.subrange(ranges@[j].0 as int, ranges@[j].1 as int) == parts[j],
            parse_parts(parts.take(k as int)) == Some(out@),
        decreases ranges@.len() - k,
    {
        assert(parts.take(k + 1).drop_last() =~= parts.take(k as int));
        let (a, b) = ranges[k];
        match parse_u64_range(v, a, b) {
            Some(x) => {
                out.push(x);
            },
            None => {
                proof {
                    lemma_parse_parts_prefix(parts, k + 1);
                }
                return None;
            },
        }
        k = k + 1;
    }
    assert(parts.take(parts.len() as int) =~= parts);
    Some(out)
}

/// A part that does not read spoils every longer prefix.
proof fn lemma_parse_parts_prefix(parts: Seq<Seq<char>>, k: int)
    requires
        0 <= k <= parts.len(),
        parse_parts(parts.take(k)) is None,
    ensures
        parse_parts(parts) is None,
    decreases parts.len() - k,
{
    if k < parts.len() {
        assert(parts.take(k + 1).drop_last() =~= parts.take(k));
        lemma_parse_parts_prefix(parts, k + 1);
    } else {
        assert(parts.take(k) =~= parts);
    }
}

/// Whether the caret requirement `req` admits `version`. `None` for
/// anything fancier than `MAJOR[.MINOR[.PATCH]]` (ranges, wildcards,
/// paths): those are reported for manual review rather than guessed.
pub fn req_admits(req: &str, version: &str) -> (r: Option<bool>)
    ensures
        r == req_admits_spec(req@, version@),
{
    let rv = to_chars(req);
    assert(rv@.subrange(0, rv@.len() as int) =~= rv@);
    let (mut a, b) = trim_range(&rv, 0, rv.len());
    if a < b && rv[a] == '^' {
        a = a + 1;
    }
    let ghost body = req_body(req@);
    assert(rv@.subrange(a as int, b as int) =~= body);
    if a == b {
        return None;
    }
    let mut i = a;
    while i < b
        invariant
            a <= i <= b <= rv@.len(),
            body == rv@.subrange(a as int, b as int),
            body == req_body(req@),
            forall|j: int| a <= j < i ==> is_digit(#[trigger] rv@[j]) || rv@[j] == '.',
        decreases b - i,
    {
        if !char_is_digit(rv[i]) && rv[i] != '.' {
            assert(body[i - a] == rv@[i as int]);
            assert(!digits_and_dots(body));
            return None;
        }
        i = i + 1;
    }
    assert(digits_and_dots(body)) by {
        assert forall|j: int| 0 <= j < body.len() implies is_digit(#[trigger] body[j]) || body[j] == '.' by {
            assert(body[j] == rv@[a + j]);
        }
    }
    let r = match parse_parts_of(&rv, a, b) {
        Some(r) => r,
        None => return None,
    };
    let vv = to_chars(version);
    assert(vv@.subrange(0, vv@.len() as int) =~= vv@);
    let e = version_core_end(&vv, 0, vv.len());
    let v = match parse_parts_of(&vv, 0, e) {
        Some(v) => v,
        None => return None,
    };
    if r.len() == 0 || v.len() == 0 {
        return None;
    }
    assert(req_admits_spec(req@, version@) == Some(caret_admits(r@, v@)));
    // The leftmost non-zero component of the requirement.
    let mut idx: usize = 0;
    while idx < r.len() - 1 && r[idx] == 0
        invariant
            r@.len() >= 1,
            idx < r@.len(),
            caret_index_from(r@, 0) == caret_index_from(r@, idx as int),
        decreases r@.len() - idx,
    {
        idx = idx + 1;
    }
    assert(caret_index_from(r@, idx as int) == idx);
    let mut i: usize = 0;
    while i <= idx
        invariant
            idx < r.len(),
            idx < r@.len(),
            idx == caret_index_from(r@, 0),
            req_admits_spec(req@, version@) == Some(caret_admits(r@, v@)),
            i <= idx + 1,
            forall|j: int| 0 <= j < i ==> #[trigger] component(v@, j) == r@[j],
        decreases idx + 1 - i,
    {
        let vi = if i < v.len() {
            v[i]
        } else {
            0
        };
        if vi != r[i] {
            assert(component(v@, i as int) != r@[i as int]);
            return Some(false);
        }
        i = i + 1;
    }
    let n = if r.len() > v.len() {
        r.len()
    } else {
        v.len()
    };
    let mut k: usize = 0;
    while k < n
        invariant
            k <= n,
            n == (if r@.len() > v@.len() {
                r@.len()
            } else {
                v@.len()
            }),
            padded_order(v@, r@, 0, n as int) == padded_order(v@, r@, k as int, n as int),
            req_admits_spec(req@, version@) == Some(caret_admits(r@, v@)),
            r@.len() > 0,
            forall|j: int| 0 <= j <= caret_index_from(r@, 0) ==> #[trigger] component(v@, j) == r@[j],
        decreases n - k,
    {
        let rk = if k < r.len() {
            r[k]
        } else {
            0
        };
        let vk = if k < v.len() {
            v[k]
        } else {
            0
        };
        assert(rk == component(r@, k as int) && vk == component(v@, k as int));
        if vk > rk {
            return Some(true);
        }
        if vk < rk {
            return Some(false);
        }
        k = k + 1;
    }
    Some(true)
}

/// The pins of `published_pkg` by the other workspace members, each
/// with whether it admits `new_version`: one per dependency entry, in
/// manifest order.
pub open spec fn pins_spec(pkg: Seq<char>, new_version: Seq<char>, ms: Seq<PackageManifest>) -> Seq<
    (Seq<char>, Seq<char>, Option<bool>),
>
    decreases ms.len(),
{
    if ms.len() == 0 {
        seq![]
    } else {
        let m = ms.last();
        pins_spec(pkg, new_version, ms.drop_last()) + if m.name@ == pkg {
            seq![]
        } else {
            pins_in(pkg, new_version, m.name@, m.deps@)
        }
    }
}

/// The pins of `pkg` among the dependencies of `consumer`.
pub open spec fn pins_in(pkg: Seq<char>, new_version: Seq<char>, consumer: Seq<char>, deps: Seq<Dep>) -> Seq<
    (Seq<char>, Seq<char>, Option<bool>),
>
    decreases deps.len(),
{
    if deps.len() == 0 {
        seq![]
    } else {
        let d = deps.last();
        pins_in(pkg, new_version, consumer, deps.drop_last()) + if d.name@ == pkg {
            seq![(consumer, d.version@, req_admits_spec(d.version@, new_version))]
        } else {
            seq![]
        }
    }
}

/// A pin as plain values.
pub open spec fn pin_view(p: ConsumerPin) -> (Seq<char>, Seq<char>, Option<bool>) {
    (p.consumer@, p.requirement@, p.admits_new_version)
}

/// Report which workspace members depend on `published_pkg` and
/// whether their requirement admits `new_version` (caret semantics,
/// cargo's default).
pub fn consumer_pins(published_pkg: &str, new_version: &str, manifests: &[PackageManifest]) -> (r:
    Vec<ConsumerPin>)
    ensures
        r@.map_values(|p: ConsumerPin| pin_view(p)) == pins_spec(
            published_pkg@,
            new_version@,
            manifests@,
        ),
{
    let ghost pv = |p: ConsumerPin| pin_view(p);
    let mut pins: Vec<ConsumerPin> = Vec::new();
    let mut i: usize = 0;
    while i < manifests.len()
        invariant
            i <= manifests@.len(),
            pv == (|p: ConsumerPin| pin_view(p)),
            pins@.map_values(pv) == pins_spec(published_pkg@, new_version@, manifests@.take(i as int)),
        decreases manifests@.len() - i,
    {
        assert(manifests@.take(i + 1).drop_last() =~= manifests@.take(i as int));
        let m = &manifests[i];
        let ghost before = pins@.map_values(pv);
        if !crate::text::eq_str(m.name.as_str(), published_pkg) {
            let mut k: usize = 0;
            while k < m.deps.len()
                invariant
                    k <= m.deps@.len(),
                    pv == (|p: ConsumerPin| pin_view(p)),
                    pins@.map_values(pv) == before + pins_in(
                        published_pkg@,
                        new_version@,
                        m.name@,
                        m.deps@.take(k as int),
                    ),
                decreases m.deps@.len() - k,
            {
                assert(m.deps@.take(k + 1).drop_last() =~= m.deps@.take(k as int));
                let d = &m.deps[k];
                if crate::text::eq_str(d.name.as_str(), published_pkg) {
                    let ghost prev = pins@.map_values(pv);
                    let admits = req_admits(d.version.as_str(), new_version);
                    pins.push(
                        ConsumerPin {
                            consumer: m.name.clone(),
                            requirement: d.version.clone(),
                            admits_new_version: admits,
                        },
                    );
                    assert(pins@.map_values(pv) =~= prev.push(
                        (m.name@, d.version@, req_admits_spec(d.version@, new_version@)),
                    ));
                } else {
                    assert(pins@.map_values(pv) =~= before + pins_in(
                        published_pkg@,
                        new_version@,
                        m.name@,
                        m.deps@.take(k + 1),
                    ));
                }
                k = k + 1;
            }
            assert(m.deps@.take(m.deps@.len() as int) =~= m.deps@);
        }
        assert(pins@.map_values(pv) =~= pins_spec(
            published_pkg@,
            new_version@,
            manifests@.take(i + 1),
        ));
        i = i + 1;
    }
    assert(manifests@.take(manifests@.len() as int) =~= manifests@);
    pins
}

/// The consumer-canary message, naming the packages (`<none>` for
/// none).
pub open spec fn canary_text(packages: Seq<Seq<char>>) -> Seq<char> {
    "consumer-canary (stub): would scaffold a fresh consumer via `plexus new` (plexus-cli), pin "@
        + (if packages.len() == 0 {
        "<none>"@
    } else {
        join(packages, ", "@)
    })
        + " at the about-to-publish version(s), and `cargo build` it before any registry upload. Not yet implemented \u{2014} publish proceeds without canary coverage."@
}

/// The consumer-canary step is not implemented: this is the message
/// the publish path emits so every run shows the gap.
pub fn canary_message(packages: &[String]) -> (s: String)
    ensures
        s@ == canary_text(views(packages@)),
{
    let listed = if packages.len() == 0 {
        "<none>".to_owned()
    } else {
        let mut v: Vec<String> = Vec::new();
        let mut i: usize = 0;
        while i < packages.len()
            invariant
                i <= packages@.len(),
                views(v@) == views(packages@).take(i as int),
            decreases packages@.len() - i,
        {
            let ghost prev = v@;
            v.push(packages[i].clone());
            assert(views(v@) =~= views(prev).push(packages@[i as int]@));
            assert(views(packages@).take(i + 1) =~= views(packages@).take(i as int).push(packages@[i as int]@));
            i = i + 1;
        }
        assert(views(packages@).take(packages@.len() as int) =~= views(packages@));
        join_strings(&v, ", ")
    };
    let a = concat(
        "consumer-canary (stub): would scaffold a fresh consumer via `plexus new` (plexus-cli), pin ",
        listed.as_str(),
    );
    concat(
        a.as_str(),
        " at the about-to-publish version(s), and `cargo build` it before any registry upload. Not yet implemented \u{2014} publish proceeds without canary coverage.",
    )
}

} // verus!
