//! Git: the errors of git operations, the status snapshot and the
//! parser of `git status --porcelain=v2 --branch`.
//!
//! Running `git` (or libgit2) is done by the program around this
//! library; it hands the captured output to [`parse_status`].

use vstd::prelude::*;

use crate::text::{
    char_bytes, char_is_ws, concat, find_char, first_index, has_prefix_at, is_ws, lines,
    lines_of, parse_u64, parse_u64_range, skip_ws_forward, string_of_range, to_chars, trim,
    trim_range, trim_start, u64_to_string, decimal, contains, contains_str, starts_with, trim_str, views,
    lemma_first_index,
};

verus! {

/// Git operation error.
#[derive(Debug, Clone)]
pub enum GitError {
    GitNotFound,
    NotAGitRepo(String),
    DirtyTree(String),
    DestExists(String),
    NonFastForward,
    CommandFailed { code: i32, stderr: String },
    Local { code: &'static str, message: String },
    Io(String),
}

/// The decimal form of a signed number.
pub open spec fn signed_decimal(n: int) -> Seq<char> {
    if n < 0 {
        "-"@ + decimal((-n) as nat)
    } else {
        decimal(n as nat)
    }
}

/// The decimal form of an `i32` (`i32::to_string`).
pub fn i32_to_string(n: i32) -> (s: String)
    ensures
        s@ == signed_decimal(n as int),
{
    if n < 0 {
        let m: i64 = n as i64;
        let a: u64 = (-m) as u64;
        let d = u64_to_string(a);
        concat("-", d.as_str())
    } else {
        u64_to_string(n as u64)
    }
}

impl GitError {
    /// The stable machine-readable code of the error.
    pub fn code(&self) -> (s: &'static str)
        ensures
            s@ == (match self {
                GitError::GitNotFound => "git_not_found"@,
                GitError::NotAGitRepo(_) => "not_a_git_repo"@,
                GitError::DirtyTree(_) => "dirty_tree"@,
                GitError::DestExists(_) => "dest_exists"@,
                GitError::NonFastForward => "non_ff"@,
                GitError::CommandFailed { .. } => "git_failed"@,
                GitError::Local { code, .. } => code@,
                GitError::Io(_) => "io"@,
            }),
    {
        match self {
            GitError::GitNotFound => "git_not_found",
            GitError::NotAGitRepo(_) => "not_a_git_repo",
            GitError::DirtyTree(_) => "dirty_tree",
            GitError::DestExists(_) => "dest_exists",
            GitError::NonFastForward => "non_ff",
            GitError::CommandFailed { .. } => "git_failed",
            GitError::Local { code, .. } => code,
            GitError::Io(_) => "io",
        }
    }

    /// The human-readable description of the error.
    pub open spec fn message_view(&self) -> Seq<char> {
        (match self {
                GitError::GitNotFound => "git not found on PATH"@,
                GitError::NotAGitRepo(p) => "target path is not a git working tree: "@ + p@,
                GitError::DirtyTree(p) => "working tree is dirty: "@ + p@,
                GitError::DestExists(p) => "destination already exists: "@ + p@,
                GitError::NonFastForward => "non-fast-forward \u{2014} branch has diverged"@,
                GitError::CommandFailed { code, stderr } => "git command failed ("@
                    + signed_decimal(*code as int) + "): "@ + stderr@,
                GitError::Local { code, message } => "git2 "@ + code@ + ": "@ + message@,
                GitError::Io(m) => "io error: "@ + m@,
            })
    }

    /// The human-readable description of the error.
    pub fn message(&self) -> (s: String)
        ensures
            s@ == self.message_view(),
    {
        match self {
            GitError::GitNotFound => "git not found on PATH".to_owned(),
            GitError::NotAGitRepo(p) => concat("target path is not a git working tree: ", p.as_str()),
            GitError::DirtyTree(p) => concat("working tree is dirty: ", p.as_str()),
            GitError::DestExists(p) => concat("destination already exists: ", p.as_str()),
            GitError::NonFastForward => "non-fast-forward \u{2014} branch has diverged".to_owned(),
            GitError::CommandFailed { code, stderr } => {
                let c = i32_to_string(*code);
                let a = concat("git command failed (", c.as_str());
                let b = concat(a.as_str(), "): ");
                concat(b.as_str(), stderr.as_str())
            },
            GitError::Local { code, message } => {
                let a = concat("git2 ", code);
                let b = concat(a.as_str(), ": ");
                concat(b.as_str(), message.as_str())
            },
            GitError::Io(m) => concat("io error: ", m.as_str()),
        }
    }
}

/// Parsed git status snapshot.
#[derive(Debug, Clone, PartialEq, Eq)]
pub struct StatusSnapshot {
    pub branch: Option<String>,
    pub upstream: Option<String>,
    pub ahead: u32,
    pub behind: u32,
    pub staged: u32,
    pub unstaged: u32,
    pub untracked: u32,
}

impl StatusSnapshot {
    /// Anything staged, modified or untracked.
    pub fn dirty(&self) -> (b: bool)
        ensures
            b == (self.staged > 0 || self.unstaged > 0 || self.untracked > 0),
    {
        self.staged > 0 || self.unstaged > 0 || self.untracked > 0
    }
}

/// A status snapshot as plain values.
pub struct StatusView {
    pub branch: Option<Seq<char>>,
    pub upstream: Option<Seq<char>>,
    pub ahead: u32,
    pub behind: u32,
    pub staged: nat,
    pub unstaged: nat,
    pub untracked: nat,
}

/// The snapshot as plain values.
pub open spec fn status_view(s: StatusSnapshot) -> StatusView {
    StatusView {
        branch: match s.branch {
            Some(b) => Some(b@),
            None => None,
        },
        upstream: match s.upstream {
            Some(u) => Some(u@),
            None => None,
        },
        ahead: s.ahead,
        behind: s.behind,
        staged: s.staged as nat,
        unstaged: s.unstaged as nat,
        untracked: s.untracked as nat,
    }
}

/// The number of leading non-whitespace characters.
pub open spec fn word_len(s: Seq<char>) -> nat
    decreases s.len(),
{
    if s.len() == 0 || is_ws(s[0]) {
        0
    } else {
        1 + word_len(s.drop_first())
    }
}

/// The first whitespace-separated word (`split_whitespace().next()`).
pub open spec fn first_word(s: Seq<char>) -> Option<Seq<char>> {
    let t = trim_start(s);
    if t.len() == 0 {
        None
    } else {
        Some(t.take(word_len(t) as int))
    }
}

/// What follows the first word.
pub open spec fn after_first_word(s: Seq<char>) -> Seq<char> {
    let t = trim_start(s);
    t.skip(word_len(t) as int)
}

/// `s` without any leading `c` (`str::trim_start_matches`).
pub open spec fn strip_all(s: Seq<char>, c: char) -> Seq<char>
    decreases s.len(),
{
    if s.len() > 0 && s[0] == c {
        strip_all(s.drop_first(), c)
    } else {
        s
    }
}

/// What `str::parse::<u32>` returns.
pub open spec fn parse_u32(s: Seq<char>) -> Option<u32> {
    match parse_u64(s) {
        Some(n) => if n <= u32::MAX {
            Some(n as u32)
        } else {
            None
        },
        None => None,
    }
}

/// A count from the `# branch.ab` line: the word without its sign,
/// read as a number, or 0.
pub open spec fn ab_count(w: Seq<char>, sign: char) -> u32 {
    match parse_u32(strip_all(w, sign)) {
        Some(n) => n,
        None => 0,
    }
}

/// The `XY` field of a changed-entry line: what follows `1 ` (or `2 `)
/// up to the next space.
pub open spec fn xy_field(line: Seq<char>) -> Seq<char> {
    let rest = line.skip(2);
    match first_index(rest, ' ') {
        Some(i) => rest.take(i),
        None => rest,
    }
}

/// The first byte of the field is not `.`: something is staged.
pub open spec fn xy_staged(f: Seq<char>) -> bool {
    f.len() >= 1 && f[0] != '.'
}

/// The second byte of the field exists and is not `.`: something is
/// modified in the worktree.
pub open spec fn xy_unstaged(f: Seq<char>) -> bool {
    (f.len() >= 1 && char_bytes(f[0]) > 1) || (f.len() >= 2 && f[1] != '.')
}

/// The snapshot after reading one line of porcelain v2 output.
pub open spec fn status_step(st: StatusView, line: Seq<char>) -> StatusView {
    if "# branch.head "@.is_prefix_of(line) {
        StatusView { branch: Some(trim(line.skip(14))), ..st }
    } else if "# branch.upstream "@.is_prefix_of(line) {
        StatusView { upstream: Some(trim(line.skip(18))), ..st }
    } else if "# branch.ab "@.is_prefix_of(line) {
        let rest = line.skip(12);
        match first_word(rest) {
            None => st,
            Some(a) => {
                let ahead = ab_count(a, '+');
                match first_word(after_first_word(rest)) {
                    None => StatusView { ahead, ..st },
                    Some(b) => StatusView { ahead, behind: ab_count(b, '-'), ..st },
                }
            },
        }
    } else if "1 "@.is_prefix_of(line) || "2 "@.is_prefix_of(line) {
        let f = xy_field(line);
        StatusView {
            staged: st.staged + if xy_staged(f) {
                1nat
            } else {
                0nat
            },
            unstaged: st.unstaged + if xy_unstaged(f) {
                1nat
            } else {
                0nat
            },
            ..st
        }
    } else if "? "@.is_prefix_of(line) {
        StatusView { untracked: st.untracked + 1, ..st }
    } else {
        st
    }
}

/// The snapshot of nothing read.
pub open spec fn empty_status() -> StatusView {
    StatusView {
        branch: None,
        upstream: None,
        ahead: 0,
        behind: 0,
        staged: 0,
        unstaged: 0,
        untracked: 0,
    }
}

/// The snapshot after reading the lines in order.
pub open spec fn status_of_lines(ls: Seq<Seq<char>>) -> StatusView
    decreases ls.len(),
{
    if ls.len() == 0 {
        empty_status()
    } else {
        status_step(status_of_lines(ls.drop_last()), ls.last())
    }
}

/// Reading one more changed-entry line (`1 XY ...` or `2 XY ...`, its
/// two status letters not blanks) adds one staged change when the index
/// letter `X` is not `.` and one unstaged change when the worktree letter
/// `Y` is not `.`, and leaves everything else as it was; so a worktree
/// modification always makes the snapshot dirty.
pub proof fn lemma_changed_entry_counts(ls: Seq<Seq<char>>, line: Seq<char>)
    requires
        line.len() >= 4,
        line[0] == '1' || line[0] == '2',
        line[1] == ' ',
        line[2] != ' ',
        line[3] != ' ',
    ensures
        ({
            let before = status_of_lines(ls);
            let after = status_of_lines(ls.push(line));
            &&& line[2] != '.' ==> after.staged == before.staged + 1
            &&& line[2] == '.' ==> after.staged == before.staged
            &&& line[3] != '.' ==> after.unstaged == before.unstaged + 1
            &&& line[3] == '.' && char_bytes(line[2]) == 1 ==> after.unstaged == before.unstaged
            &&& line[3] != '.' ==> after.unstaged > 0
            &&& after.untracked == before.untracked
            &&& after.branch == before.branch
            &&& after.upstream == before.upstream
            &&& after.ahead == before.ahead
            &&& after.behind == before.behind
        }),
{
    let all = ls.push(line);
    assert(all.drop_last() =~= ls);
    assert(all.last() == line);
    reveal_strlit("# branch.head ");
    reveal_strlit("# branch.upstream ");
    reveal_strlit("# branch.ab ");
    reveal_strlit("1 ");
    reveal_strlit("2 ");
    assert(!"# branch.head "@.is_prefix_of(line)) by {
        assert("# branch.head "@[0] != line[0]);
    }
    assert(!"# branch.upstream "@.is_prefix_of(line)) by {
        assert("# branch.upstream "@[0] != line[0]);
    }
    assert(!"# branch.ab "@.is_prefix_of(line)) by {
        assert("# branch.ab "@[0] != line[0]);
    }
    if line[0] == '1' {
        assert("1 "@.is_prefix_of(line)) by {
            assert(line.take(2) =~= "1 "@);
        }
    } else {
        assert("2 "@.is_prefix_of(line)) by {
            assert(line.take(2) =~= "2 "@);
        }
    }
    let rest = line.skip(2);
    lemma_first_index(rest, ' ');
    assert(rest[0] == line[2] && rest[1] == line[3]);
    let f = xy_field(line);
    assert(f.len() >= 2 && f[0] == line[2] && f[1] == line[3]);
}

proof fn lemma_status_counts(ls: Seq<Seq<char>>)
    ensures
        status_of_lines(ls).staged <= ls.len(),
        status_of_lines(ls).unstaged <= ls.len(),
        status_of_lines(ls).untracked <= ls.len(),
    decreases ls.len(),
{
    if ls.len() > 0 {
        lemma_status_counts(ls.drop_last());
    }
}

/// Index of the first whitespace character of `v[lo..hi]`, or `hi`.
pub fn skip_word(v: &Vec<char>, lo: usize, hi: usize) -> (k: usize)
    requires
        lo <= hi <= v.len(),
    ensures
        lo <= k <= hi,
        k - lo == word_len(v@.subrange(lo as int, hi as int)),
{
    let mut k = lo;
    while k < hi && !char_is_ws(v[k])
        invariant
            lo <= k <= hi <= v.len(),
            word_len(v@.subrange(lo as int, hi as int)) == (k - lo) + word_len(
                v@.subrange(k as int, hi as int),
            ),
        decreases hi - k,
    {
        assert(v@.subrange(k as int, hi as int).drop_first() =~= v@.subrange(k + 1, hi as int));
        k = k + 1;
    }
    k
}

/// The count in `v[lo..hi]`: leading `sign`s dropped, read as a `u32`,
/// or 0.
fn ab_count_of(v: &Vec<char>, lo: usize, hi: usize, sign: char) -> (n: u32)
    requires
        lo <= hi <= v.len(),
    ensures
        n == ab_count(v@.subrange(lo as int, hi as int), sign),
{
    let mut k = lo;
    while k < hi && v[k] == sign
        invariant
            lo <= k <= hi <= v.len(),
            strip_all(v@.subrange(lo as int, hi as int), sign) == strip_all(
                v@.subrange(k as int, hi as int),
                sign,
            ),
        decreases hi - k,
    {
        assert(v@.subrange(k as int, hi as int).drop_first() =~= v@.subrange(k + 1, hi as int));
        k = k + 1;
    }
    match parse_u64_range(v, k, hi) {
        Some(x) => if x <= 4294967295 {
            x as u32
        } else {
            0
        },
        None => 0,
    }
}

/// One line applied to the snapshot fields.
fn apply_line(
    line: &str,
    branch: &mut Option<String>,
    upstream: &mut Option<String>,
    counts: &mut (u32, u32, u32, u32, u32),
)
    requires
        old(counts).2 < u32::MAX,
        old(counts).3 < u32::MAX,
        old(counts).4 < u32::MAX,
    ensures
        ({
            let before = StatusView {
                branch: match *old(branch) {
                    Some(b) => Some(b@),
                    None => None,
                },
                upstream: match *old(upstream) {
                    Some(u) => Some(u@),
                    None => None,
                },
                ahead: old(counts).0,
                behind: old(counts).1,
                staged: old(counts).2 as nat,
                unstaged: old(counts).3 as nat,
                untracked: old(counts).4 as nat,
            };
            let after = status_step(before, line@);
            &&& after.branch == match *final(branch) {
                Some(b) => Some(b@),
                None => None,
            }
            &&& after.upstream == match *final(upstream) {
                Some(u) => Some(u@),
                None => None,
            }
            &&& after.ahead == final(counts).0
            &&& after.behind == final(counts).1
            &&& after.staged == final(counts).2 as nat
            &&& after.unstaged == final(counts).3 as nat
            &&& after.untracked == final(counts).4 as nat
        }),
{
    let v = to_chars(line);
    let n = v.len();
    let ghost s = line@;
    assert(v@.subrange(0, n as int) =~= s);
    let head = to_chars("# branch.head ");
    let up = to_chars("# branch.upstream ");
    let ab = to_chars("# branch.ab ");
    let one = to_chars("1 ");
    let two = to_chars("2 ");
    let q = to_chars("? ");
    proof {
        reveal_strlit("# branch.head ");
        reveal_strlit("# branch.upstream ");
        reveal_strlit("# branch.ab ");
        reveal_strlit("1 ");
        reveal_strlit("2 ");
        reveal_strlit("? ");
    }
    if has_prefix_at(&v, 0, n, &head) {
        let (a, b) = trim_range(&v, 14, n);
        assert(v@.subrange(14, n as int) =~= s.skip(14));
        *branch = Some(string_of_range(&v, a, b));
    } else if has_prefix_at(&v, 0, n, &up) {
        let (a, b) = trim_range(&v, 18, n);
        assert(v@.subrange(18, n as int) =~= s.skip(18));
        *upstream = Some(string_of_range(&v, a, b));
    } else if has_prefix_at(&v, 0, n, &ab) {
        let ghost rest = s.skip(12);
        assert(v@.subrange(12, n as int) =~= rest);
        let a0 = skip_ws_forward(&v, 12, n);
        if a0 < n {
            let a1 = skip_word(&v, a0, n);
            assert(trim_start(rest).take(word_len(trim_start(rest)) as int) =~= v@.subrange(
                a0 as int,
                a1 as int,
            ));
            counts.0 = ab_count_of(&v, a0, a1, '+');
            assert(after_first_word(rest) =~= v@.subrange(a1 as int, n as int));
            let b0 = skip_ws_forward(&v, a1, n);
            if b0 < n {
                let b1 = skip_word(&v, b0, n);
                let ghost r2 = after_first_word(rest);
                assert(trim_start(r2).take(word_len(trim_start(r2)) as int) =~= v@.subrange(
                    b0 as int,
                    b1 as int,
                ));
                counts.1 = ab_count_of(&v, b0, b1, '-');
            }
        }
    } else if has_prefix_at(&v, 0, n, &one) || has_prefix_at(&v, 0, n, &two) {
        let ghost rest = s.skip(2);
        assert(v@.subrange(2, n as int) =~= rest);
        let end = match find_char(&v, 2, n, ' ') {
            Some(i) => i,
            None => n,
        };
        let ghost f = xy_field(s);
        assert(f =~= v@.subrange(2, end as int));
        if end > 2 && v[2] != '.' {
            counts.2 = counts.2 + 1;
        }
        if (end > 2 && crate::text::char_len_utf8(v[2]) > 1) || (end > 3 && v[3] != '.') {
            counts.3 = counts.3 + 1;
        }
    } else if has_prefix_at(&v, 0, n, &q) {
        counts.4 = counts.4 + 1;
    }
}

/// Parse `git status --porcelain=v2 --branch` output into a snapshot.
///
/// `# branch.head`, `# branch.upstream` and `# branch.ab +N -M` set the
/// branch, its upstream and the ahead/behind counts; each `1 `/`2 `
/// entry counts as staged and/or unstaged by its `XY` field, and each
/// `? ` entry as untracked.
pub fn parse_status(raw: &str) -> (s: StatusSnapshot)
    requires
        lines(raw@).len() < u32::MAX,
    ensures
        status_view(s) == status_of_lines(lines(raw@)),
{
    let ls = lines_of(raw);
    let ghost lv = lines(raw@);
    let mut branch: Option<String> = None;
    let mut upstream: Option<String> = None;
    let mut counts: (u32, u32, u32, u32, u32) = (0, 0, 0, 0, 0);
    let mut i: usize = 0;
    while i < ls.len()
        invariant
            i <= ls@.len(),
            crate::text::views(ls@) == lv,
            lv.len() < u32::MAX,
            status_of_lines(lv.take(i as int)) == status_view(
                StatusSnapshot {
                    branch,
                    upstream,
                    ahead: counts.0,
                    behind: counts.1,
                    staged: counts.2,
                    unstaged: counts.3,
                    untracked: counts.4,
                },
            ),
        decreases ls@.len() - i,
    {
        proof {
            lemma_status_counts(lv.take(i as int));
        }
        assert(lv.take(i + 1).drop_last() =~= lv.take(i as int));
        assert(lv[i as int] == ls@[i as int]@);
        apply_line(ls[i].as_str(), &mut branch, &mut upstream, &mut counts);
        i = i + 1;
    }
    assert(lv.take(lv.len() as int) =~= lv);
    StatusSnapshot {
        branch,
        upstream,
        ahead: counts.0,
        behind: counts.1,
        staged: counts.2,
        unstaged: counts.3,
        untracked: counts.4,
    }
}

/// The `core.sshCommand` value that pins `key_path`.
pub fn format_ssh_command(key_path: &str) -> (s: String)
    ensures
        s@ == "ssh -i "@ + key_path@ + " -o IdentitiesOnly=yes"@,
{
    let a = concat("ssh -i ", key_path);
    concat(a.as_str(), " -o IdentitiesOnly=yes")
}

// ---------------------------------------------------------------------
// Command lines.
// ---------------------------------------------------------------------

fn sv(v: &mut Vec<String>, x: &str)
    ensures
        views(final(v)@) == views(old(v)@).push(x@),
{
    let ghost before = views(v@);
    v.push(x.to_string());
    assert(views(v@) =~= before.push(x@));
}

fn in_dir(dir: &str, cmd: &str) -> (v: Vec<String>)
    ensures
        views(v@) == seq!["-C"@, dir@, cmd@],
{
    let mut v: Vec<String> = Vec::new();
    sv(&mut v, "-C");
    sv(&mut v, dir);
    sv(&mut v, cmd);
    assert(views(v@) =~= seq!["-C"@, dir@, cmd@]);
    v
}

/// `git clone <url> <dest>`.
pub fn clone_args(url: &str, dest: &str) -> (v: Vec<String>)
    ensures
        views(v@) == seq!["clone"@, url@, dest@],
{
    let mut v: Vec<String> = Vec::new();
    sv(&mut v, "clone");
    sv(&mut v, url);
    sv(&mut v, dest);
    assert(views(v@) =~= seq!["clone"@, url@, dest@]);
    v
}

/// `git -C <dir> fetch <remote>`, or `--all` remotes.
pub fn fetch_args(dir: &str, remote: Option<&str>) -> (v: Vec<String>)
    ensures
        views(v@) == seq!["-C"@, dir@, "fetch"@, match remote {
            Some(r) => r@,
            None => "--all"@,
        }],
{
    let mut v = in_dir(dir, "fetch");
    match remote {
        Some(r) => sv(&mut v, r),
        None => sv(&mut v, "--all"),
    }
    v
}

/// `git -C <dir> pull --ff-only <remote> <branch>`.
pub fn pull_ff_args(dir: &str, remote: &str, branch: &str) -> (v: Vec<String>)
    ensures
        views(v@) == seq!["-C"@, dir@, "pull"@, "--ff-only"@, remote@, branch@],
{
    let mut v = in_dir(dir, "pull");
    sv(&mut v, "--ff-only");
    sv(&mut v, remote);
    sv(&mut v, branch);
    v
}

/// `git -C <dir> push <remote> [<branch>]`.
pub fn push_refs_args(dir: &str, remote: &str, branch: Option<&str>) -> (v: Vec<String>)
    ensures
        views(v@) == match branch {
            Some(b) => seq!["-C"@, dir@, "push"@, remote@, b@],
            None => seq!["-C"@, dir@, "push"@, remote@],
        },
{
    let mut v = in_dir(dir, "push");
    sv(&mut v, remote);
    match branch {
        Some(b) => sv(&mut v, b),
        None => {},
    }
    v
}

/// `git -C <dir> push <remote> <refspec>`.
pub fn push_ref_args(dir: &str, remote: &str, refspec: &str) -> (v: Vec<String>)
    ensures
        views(v@) == seq!["-C"@, dir@, "push"@, remote@, refspec@],
{
    let mut v = in_dir(dir, "push");
    sv(&mut v, remote);
    sv(&mut v, refspec);
    v
}

/// `git -C <dir> status --porcelain=v2 --branch`.
pub fn status_args(dir: &str) -> (v: Vec<String>)
    ensures
        views(v@) == seq!["-C"@, dir@, "status"@, "--porcelain=v2"@, "--branch"@],
{
    let mut v = in_dir(dir, "status");
    sv(&mut v, "--porcelain=v2");
    sv(&mut v, "--branch");
    v
}

/// `git -C <dir> remote set-url <name> <url>`.
pub fn set_remote_url_args(dir: &str, name: &str, url: &str) -> (v: Vec<String>)
    ensures
        views(v@) == seq!["-C"@, dir@, "remote"@, "set-url"@, name@, url@],
{
    let mut v = in_dir(dir, "remote");
    sv(&mut v, "set-url");
    sv(&mut v, name);
    sv(&mut v, url);
    v
}

/// `git -C <dir> add <paths...>`.
pub fn add_args(dir: &str, paths: &Vec<String>) -> (v: Vec<String>)
    ensures
        views(v@) == seq!["-C"@, dir@, "add"@] + views(paths@),
{
    let mut v = in_dir(dir, "add");
    let mut i: usize = 0;
    while i < paths.len()
        invariant
            i <= paths@.len(),
            views(v@) == seq!["-C"@, dir@, "add"@] + views(paths@).take(i as int),
        decreases paths@.len() - i,
    {
        sv(&mut v, paths[i].as_str());
        assert(views(paths@).take(i + 1) =~= views(paths@).take(i as int).push(paths@[i as int]@));
        i = i + 1;
    }
    assert(views(paths@).take(i as int) =~= views(paths@));
    v
}

/// `git -C <dir> commit [--allow-empty] -m <message>`.
pub fn commit_args(dir: &str, message: &str, allow_empty: bool) -> (v: Vec<String>)
    ensures
        views(v@) == if allow_empty {
            seq!["-C"@, dir@, "commit"@, "--allow-empty"@, "-m"@, message@]
        } else {
            seq!["-C"@, dir@, "commit"@, "-m"@, message@]
        },
{
    let mut v = in_dir(dir, "commit");
    if allow_empty {
        sv(&mut v, "--allow-empty");
    }
    sv(&mut v, "-m");
    sv(&mut v, message);
    v
}

/// `git -C <dir> tag <name>`.
pub fn tag_args(dir: &str, name: &str) -> (v: Vec<String>)
    ensures
        views(v@) == seq!["-C"@, dir@, "tag"@, name@],
{
    let mut v = in_dir(dir, "tag");
    sv(&mut v, name);
    v
}

/// `git -C <dir> tag -a <name> -m <message>`.
pub fn tag_annotated_args(dir: &str, name: &str, message: &str) -> (v: Vec<String>)
    ensures
        views(v@) == seq!["-C"@, dir@, "tag"@, "-a"@, name@, "-m"@, message@],
{
    let mut v = in_dir(dir, "tag");
    sv(&mut v, "-a");
    sv(&mut v, name);
    sv(&mut v, "-m");
    sv(&mut v, message);
    v
}

/// `git -C <dir> checkout [-B] <branch>` (`-B` creates or resets it).
pub fn checkout_args(dir: &str, branch: &str, create: bool) -> (v: Vec<String>)
    ensures
        views(v@) == if create {
            seq!["-C"@, dir@, "checkout"@, "-B"@, branch@]
        } else {
            seq!["-C"@, dir@, "checkout"@, branch@]
        },
{
    let mut v = in_dir(dir, "checkout");
    if create {
        sv(&mut v, "-B");
    }
    sv(&mut v, branch);
    v
}

/// `git -C <dir> show <rev>:<path>`.
pub fn show_args(dir: &str, rev: &str, path: &str) -> (v: Vec<String>)
    ensures
        views(v@) == seq!["-C"@, dir@, "show"@, rev@ + ":"@ + path@],
{
    let mut v = in_dir(dir, "show");
    let a = concat(rev, ":");
    let spec_arg = concat(a.as_str(), path);
    sv(&mut v, spec_arg.as_str());
    v
}

/// `git -C <dir> config core.sshCommand <ssh -i key ...>`.
pub fn set_ssh_command_args(dir: &str, key_path: &str) -> (v: Vec<String>)
    ensures
        views(v@) == seq!["-C"@, dir@, "config"@, "core.sshCommand"@, "ssh -i "@ + key_path@ + " -o IdentitiesOnly=yes"@],
{
    let mut v = in_dir(dir, "config");
    sv(&mut v, "core.sshCommand");
    let cmd = format_ssh_command(key_path);
    sv(&mut v, cmd.as_str());
    v
}

/// `git -C <dir> config --unset core.sshCommand`.
pub fn clear_ssh_command_args(dir: &str) -> (v: Vec<String>)
    ensures
        views(v@) == seq!["-C"@, dir@, "config"@, "--unset"@, "core.sshCommand"@],
{
    let mut v = in_dir(dir, "config");
    sv(&mut v, "--unset");
    sv(&mut v, "core.sshCommand");
    v
}

/// `git -C <dir> config --get core.sshCommand`.
pub fn get_ssh_command_args(dir: &str) -> (v: Vec<String>)
    ensures
        views(v@) == seq!["-C"@, dir@, "config"@, "--get"@, "core.sshCommand"@],
{
    let mut v = in_dir(dir, "config");
    sv(&mut v, "--get");
    sv(&mut v, "core.sshCommand");
    v
}

/// `git config --file <config> --get remote.origin.url`.
pub fn origin_url_args(config_path: &str) -> (v: Vec<String>)
    ensures
        views(v@) == seq!["config"@, "--file"@, config_path@, "--get"@, "remote.origin.url"@],
{
    let mut v: Vec<String> = Vec::new();
    sv(&mut v, "config");
    sv(&mut v, "--file");
    sv(&mut v, config_path);
    sv(&mut v, "--get");
    sv(&mut v, "remote.origin.url");
    assert(views(v@) =~= seq!["config"@, "--file"@, config_path@, "--get"@, "remote.origin.url"@]);
    v
}

// ---------------------------------------------------------------------
// Outcomes.
// ---------------------------------------------------------------------

/// The error of a git run that exited unsuccessfully; a run killed by a
/// signal has no exit code and counts as -1.
pub fn command_failed(code: Option<i32>, stderr: String) -> (e: GitError)
    ensures
        e matches GitError::CommandFailed { code: c, stderr: s } && c == match code {
            Some(x) => x,
            None => -1i32,
        } && s@ == stderr@,
{
    GitError::CommandFailed {
        code: match code {
            Some(x) => x,
            None => -1,
        },
        stderr,
    }
}

/// A fast-forward pull refuses a dirty tree before it runs.
pub fn pull_precheck(dir: &str, dirty: bool) -> (r: Result<(), GitError>)
    ensures
        dirty ==> (r is Err && (r->Err_0 matches GitError::DirtyTree(p) && p@ == dir@)),
        !dirty ==> r is Ok,
{
    if dirty {
        Err(GitError::DirtyTree(dir.to_string()))
    } else {
        Ok(())
    }
}

/// What a fast-forward pull's run means: a failure whose stderr says
/// a fast-forward is not possible is a non-fast-forward; anything else
/// stands.
pub fn pull_outcome(r: Result<(), GitError>) -> (o: Result<(), GitError>)
    ensures
        match r {
            Ok(()) => o is Ok,
            Err(GitError::CommandFailed { code, stderr }) => if contains(stderr@, "Not possible to fast-forward"@) {
                o matches Err(GitError::NonFastForward)
            } else {
                o == r
            },
            Err(e) => o == r,
        },
{
    match r {
        Ok(()) => Ok(()),
        Err(GitError::CommandFailed { code, stderr }) => {
            if contains_str(stderr.as_str(), "Not possible to fast-forward") {
                Err(GitError::NonFastForward)
            } else {
                Err(GitError::CommandFailed { code, stderr })
            }
        },
        Err(e) => Err(e),
    }
}

/// What unsetting `core.sshCommand` means: git exits with 5 when it was
/// not set, which is no error.
pub fn clear_ssh_outcome(r: Result<(), GitError>) -> (o: Result<(), GitError>)
    ensures
        match r {
            Ok(()) => o is Ok,
            Err(GitError::CommandFailed { code, stderr }) => if code == 5 {
                o is Ok
            } else {
                o == r
            },
            Err(e) => o == r,
        },
{
    match r {
        Ok(()) => Ok(()),
        Err(GitError::CommandFailed { code, stderr }) => {
            if code == 5 {
                Ok(())
            } else {
                Err(GitError::CommandFailed { code, stderr })
            }
        },
        Err(e) => Err(e),
    }
}

/// What a `git config --get` run means: the value, trimmed; nothing
/// when git exits with 1 (the key is not set); else the error.
pub fn config_get_outcome(r: Result<String, GitError>) -> (o: Result<Option<String>, GitError>)
    ensures
        match r {
            Ok(s) => o is Ok && o->Ok_0 is Some && o->Ok_0->0@ == trim(s@),
            Err(GitError::CommandFailed { code, stderr }) => if code == 1 {
                o matches Ok(None)
            } else {
                o is Err && o->Err_0 == r->Err_0
            },
            Err(e) => o is Err && o->Err_0 == e,
        },
{
    match r {
        Ok(s) => Ok(Some(trim_str(s.as_str()))),
        Err(GitError::CommandFailed { code, stderr }) => {
            if code == 1 {
                Ok(None)
            } else {
                Err(GitError::CommandFailed { code, stderr })
            }
        },
        Err(e) => Err(e),
    }
}

/// The directory a `.git` pointer file names (`gitdir: <path>`), or
/// the error for a file that is not one.
pub fn gitdir_pointer(text: &str) -> (r: Result<String, GitError>)
    ensures
        "gitdir:"@.is_prefix_of(trim(text@)) ==> r is Ok && r->Ok_0@ == trim(trim(text@).skip(7)),
        !"gitdir:"@.is_prefix_of(trim(text@)) ==> (r is Err && (r->Err_0 matches GitError::Io(m) && m@
            == "malformed .git pointer file"@)),
{
    let t = trim_str(text);
    proof {
        reveal_strlit("gitdir:");
    }
    if starts_with(t.as_str(), "gitdir:") {
        let v = to_chars(t.as_str());
        let rest = string_of_range(&v, 7, v.len());
        assert(rest@ =~= trim(text@).skip(7));
        Ok(trim_str(rest.as_str()))
    } else {
        Err(GitError::Io("malformed .git pointer file".to_string()))
    }
}

} // verus!
