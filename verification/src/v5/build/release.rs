//! Version bumps of manifests and publish command generation.
//!
//! Pure string manipulation; no I/O. `bump_cabal_file` returns the new
//! file contents and the old/new version for the caller to write and
//! commit. `publish_command` maps a channel name to the shell command
//! that publishes (token injected by caller).

use vstd::prelude::*;

use crate::text::{
    first_index, lemma_first_index, skip_ws_forward,
    byte_len, concat, eq_str, find_char, join, join_strings, lines, lines_of, lowercase, parse_u64,
    parse_u64_range, push_char, split, split_ranges, starts_with, string_of_range, to_chars,
    to_lowercase, trim, trim_start, views, is_suffix, ends_with,
};
use crate::types::package::dotted_string;
use super::registry::{keyed_lookup, keyed_lookup_of, opt_string_view};

verus! {

/// Errors of a version bump.
#[derive(Debug, Clone)]
pub enum BumpError {
    UnknownKind(String),
    NotSemver(String),
    MissingVersion,
    Io(String),
    Toml(String),
}

/// The abstract content of a `BumpError`.
pub enum BumpErrorView {
    UnknownKind(Seq<char>),
    NotSemver(Seq<char>),
    MissingVersion,
    Io(Seq<char>),
    Toml(Seq<char>),
}

impl View for BumpError {
    type V = BumpErrorView;

    open spec fn view(&self) -> BumpErrorView {
        match self {
            BumpError::UnknownKind(s) => BumpErrorView::UnknownKind(s@),
            BumpError::NotSemver(s) => BumpErrorView::NotSemver(s@),
            BumpError::MissingVersion => BumpErrorView::MissingVersion,
            BumpError::Io(s) => BumpErrorView::Io(s@),
            BumpError::Toml(s) => BumpErrorView::Toml(s@),
        }
    }
}

impl BumpError {
    pub fn code(&self) -> (s: &'static str)
        ensures
            s@ == (match self {
                BumpError::UnknownKind(_) => "unknown_bump_kind"@,
                BumpError::NotSemver(_) => "not_semver"@,
                BumpError::MissingVersion => "missing_version"@,
                BumpError::Io(_) => "io"@,
                BumpError::Toml(_) => "manifest_parse_error"@,
            }),
    {
        match self {
            BumpError::UnknownKind(_) => "unknown_bump_kind",
            BumpError::NotSemver(_) => "not_semver",
            BumpError::MissingVersion => "missing_version",
            BumpError::Io(_) => "io",
            BumpError::Toml(_) => "manifest_parse_error",
        }
    }

    /// The human-readable description of the error.
    pub fn message(&self) -> (s: String)
        ensures
            s@ == (match self {
                BumpError::UnknownKind(k) => "unknown bump kind: "@ + k@,
                BumpError::NotSemver(v) => "version is not semver-shaped: "@ + v@,
                BumpError::MissingVersion => "manifest missing [package].version"@,
                BumpError::Io(m) => "io error: "@ + m@,
                BumpError::Toml(m) => "toml edit error: "@ + m@,
            }),
    {
        match self {
            BumpError::UnknownKind(k) => concat("unknown bump kind: ", k.as_str()),
            BumpError::NotSemver(v) => concat("version is not semver-shaped: ", v.as_str()),
            BumpError::MissingVersion => "manifest missing [package].version".to_string(),
            BumpError::Io(m) => concat("io error: ", m.as_str()),
            BumpError::Toml(m) => concat("toml edit error: ", m.as_str()),
        }
    }
}

/// `s` up to its first `-` or `+` (the first piece of
/// `s.split(['-', '+'])`).
pub open spec fn version_core(s: Seq<char>) -> Seq<char>
    decreases s.len(),
{
    if s.len() == 0 || s[0] == '-' || s[0] == '+' {
        Seq::<char>::empty()
    } else {
        seq![s[0]] + version_core(s.drop_first())
    }
}

/// End of the first piece of `v[lo..hi]` split on `-` or `+`.
pub fn version_core_end(v: &Vec<char>, lo: usize, hi: usize) -> (e: usize)
    requires
        lo <= hi <= v.len(),
    ensures
        lo <= e <= hi,
        v@.subrange(lo as int, e as int) == version_core(v@.subrange(lo as int, hi as int)),
{
    let mut e = lo;
    while e < hi && v[e] != '-' && v[e] != '+'
        invariant
            lo <= e <= hi <= v.len(),
            version_core(v@.subrange(lo as int, hi as int)) == v@.subrange(lo as int, e as int)
                + version_core(v@.subrange(e as int, hi as int)),
        decreases hi - e,
    {
        assert(v@.subrange(e as int, hi as int).drop_first() =~= v@.subrange(e + 1, hi as int));
        assert(v@.subrange(lo as int, e + 1) =~= v@.subrange(lo as int, e as int) + seq![
            v@[e as int],
        ]);
        e = e + 1;
    }
    assert(v@.subrange(lo as int, e as int) + version_core(v@.subrange(e as int, hi as int))
        =~= v@.subrange(lo as int, e as int));
    e
}

/// A `MAJOR.MINOR.PATCH[-pre][+build]` triple; anything else is not semver.
pub open spec fn parse_semver_spec(v: Seq<char>) -> Option<(u64, u64, u64)> {
    let parts = split(version_core(v), '.');
    if parts.len() != 3 {
        None
    } else {
        match (parse_u64(parts[0]), parse_u64(parts[1]), parse_u64(parts[2])) {
            (Some(a), Some(b), Some(c)) => Some((a, b, c)),
            _ => None,
        }
    }
}

/// Parse a `MAJOR.MINOR.PATCH[-pre]` triple. Any build/pre suffix is
/// ignored — a bump resets the suffix.
pub fn parse_semver(v: &str) -> (r: Result<(u64, u64, u64), BumpError>)
    ensures
        match r {
            Ok(t) => parse_semver_spec(v@) == Some(t),
            Err(e) => parse_semver_spec(v@) is None && e@ == BumpErrorView::NotSemver(v@),
        },
{
    let cv = to_chars(v);
    assert(cv@.subrange(0, cv@.len() as int) =~= cv@);
    let e = version_core_end(&cv, 0, cv.len());
    let parts = split_ranges(&cv, 0, e, '.');
    if parts.len() != 3 {
        return Err(BumpError::NotSemver(v.to_owned()));
    }
    let a = parse_u64_range(&cv, parts[0].0, parts[0].1);
    let b = parse_u64_range(&cv, parts[1].0, parts[1].1);
    let c = parse_u64_range(&cv, parts[2].0, parts[2].1);
    match (a, b, c) {
        (Some(a), Some(b), Some(c)) => Ok((a, b, c)),
        _ => Err(BumpError::NotSemver(v.to_owned())),
    }
}

/// The triple after bumping `current` by `kind`, if `kind` is a bump kind.
pub open spec fn apply_bump_spec(current: (u64, u64, u64), kind: Seq<char>) -> Option<(nat, nat, nat)> {
    if kind == "major"@ {
        Some(((current.0 + 1) as nat, 0, 0))
    } else if kind == "minor"@ {
        Some((current.0 as nat, (current.1 + 1) as nat, 0))
    } else if kind == "patch"@ {
        Some((current.0 as nat, current.1 as nat, (current.2 + 1) as nat))
    } else {
        None
    }
}

/// Whether bumping `current` by `kind` takes a component past `u64::MAX`.
pub open spec fn bump_overflows(current: (u64, u64, u64), kind: Seq<char>) -> bool {
    match apply_bump_spec(current, kind) {
        Some(t) => t.0 > u64::MAX || t.1 > u64::MAX || t.2 > u64::MAX,
        None => false,
    }
}

/// Bump `current` by `kind` (`major`, `minor` or `patch`).
pub fn apply_bump(current: (u64, u64, u64), kind: &str) -> (r: Option<(u64, u64, u64)>)
    requires
        !bump_overflows(current, kind@),
    ensures
        match r {
            Some(t) => apply_bump_spec(current, kind@) == Some((t.0 as nat, t.1 as nat, t.2 as nat)),
            None => apply_bump_spec(current, kind@) is None,
        },
        kind@ == "major"@ ==> (r matches Some(t) && (t.0 == current.0 + 1 && t.1 == 0 && t.2 == 0)),
        kind@ == "minor"@ ==> (r matches Some(t) && (t.0 == current.0 && t.1 == current.1 + 1 && t.2 == 0)),
        kind@ == "patch"@ ==> (r matches Some(t) && (t.0 == current.0 && t.1 == current.1 && t.2 == current.2 + 1)),
{
    proof {
        lemma_bump_components(current, kind@);
    }
    if eq_str(kind, "major") {
        Some((current.0 + 1, 0, 0))
    } else if eq_str(kind, "minor") {
        Some((current.0, current.1 + 1, 0))
    } else if eq_str(kind, "patch") {
        Some((current.0, current.1, current.2 + 1))
    } else {
        None
    }
}

/// A bump raises one component by one, keeps those before it and resets
/// those after it to zero: a major bump of (a, b, c) gives (a + 1, 0, 0),
/// a minor bump (a, b + 1, 0), a patch bump (a, b, c + 1); any other kind
/// gives nothing. Each bump is strictly later than the version it bumps.
pub proof fn lemma_bump_components(current: (u64, u64, u64), kind: Seq<char>)
    ensures
        kind == "major"@ ==> apply_bump_spec(current, kind) == Some(((current.0 + 1) as nat, 0nat, 0nat)),
        kind == "minor"@ ==> apply_bump_spec(current, kind) == Some(
            (current.0 as nat, (current.1 + 1) as nat, 0nat),
        ),
        kind == "patch"@ ==> apply_bump_spec(current, kind) == Some(
            (current.0 as nat, current.1 as nat, (current.2 + 1) as nat),
        ),
        kind != "major"@ && kind != "minor"@ && kind != "patch"@ ==> apply_bump_spec(current, kind) is None,
        apply_bump_spec(current, kind) is Some ==> ({
            let t = apply_bump_spec(current, kind)->0;
            t.0 > current.0 || (t.0 == current.0 && (t.1
            > current.1 || (t.1 == current.1 && t.2 > current.2)))
        }),
{
    reveal_strlit("major");
    reveal_strlit("minor");
    reveal_strlit("patch");
    assert("major"@[1] != "minor"@[1]);
    assert("major"@[0] != "patch"@[0]);
    assert("minor"@[0] != "patch"@[0]);
}

/// Whether `k` names a bump kind.
pub open spec fn is_bump_kind(k: Seq<char>) -> bool {
    k == "major"@ || k == "minor"@ || k == "patch"@
}

/// The new version a bump of `old` by `kind_or_target` yields: the
/// bumped triple for a bump kind, else the target itself once it is
/// semver-shaped.
pub open spec fn new_version_spec(old: Seq<char>, kind_or_target: Seq<char>) -> Result<Seq<char>, BumpErrorView> {
    if is_bump_kind(kind_or_target) {
        match parse_semver_spec(old) {
            Some(t) => {
                let b = apply_bump_spec(t, kind_or_target)->0;
                Ok(crate::types::package::dotted(b.0, b.1, b.2))
            },
            None => Err(BumpErrorView::NotSemver(old)),
        }
    } else {
        match parse_semver_spec(kind_or_target) {
            Some(_) => Ok(kind_or_target),
            None => Err(BumpErrorView::NotSemver(kind_or_target)),
        }
    }
}

/// Whether the new version of `old` would overflow a component.
pub open spec fn new_version_overflows(old: Seq<char>, kind_or_target: Seq<char>) -> bool {
    is_bump_kind(kind_or_target) && match parse_semver_spec(old) {
        Some(t) => bump_overflows(t, kind_or_target),
        None => false,
    }
}

/// The new version for `old` bumped by `kind_or_target`.
pub fn new_version(old: &str, kind_or_target: &str) -> (r: Result<String, BumpError>)
    requires
        !new_version_overflows(old@, kind_or_target@),
    ensures
        match r {
            Ok(s) => new_version_spec(old@, kind_or_target@) == Ok::<Seq<char>, BumpErrorView>(s@),
            Err(e) => new_version_spec(old@, kind_or_target@) == Err::<Seq<char>, BumpErrorView>(
                e@,
            ),
        },
{
    if eq_str(kind_or_target, "major") || eq_str(kind_or_target, "minor") || eq_str(
        kind_or_target,
        "patch",
    ) {
        let parsed = match parse_semver(old) {
            Ok(t) => t,
            Err(e) => return Err(e),
        };
        match apply_bump(parsed, kind_or_target) {
            Some(nb) => Ok(dotted_string(nb.0, nb.1, nb.2)),
            None => Err(BumpError::UnknownKind(kind_or_target.to_owned())),
        }
    } else {
        match parse_semver(kind_or_target) {
            Ok(_) => Ok(kind_or_target.to_owned()),
            Err(e) => Err(e),
        }
    }
}

/// The key of the cabal version field.
pub open spec fn version_key() -> Seq<char> {
    "version:"@
}

/// Parse the `version:` field from a `.cabal` file's text content.
/// `None` if the field is absent or empty.
pub fn parse_cabal_version(text: &str) -> (r: Option<String>)
    requires
        keyed_lookup(lines(text@), version_key()) is Some,
    ensures
        keyed_lookup(lines(text@), version_key()) == Some(opt_string_view(r)),
{
    proof {
        reveal_strlit("version:");
        assert(byte_len("version:"@) == 8) by {
            reveal_with_fuel(byte_len, 9);
        }
    }
    match keyed_lookup_of(text, "version:") {
        Some(v) => v,
        None => None,
    }
}

/// `parse_cabal_version` for any input: `None` where that lookup would
/// cut a line inside a character, else its result.
pub fn parse_cabal_version_checked(text: &str) -> (r: Option<Option<String>>)
    ensures
        match r {
            Some(v) => keyed_lookup(lines(text@), version_key()) == Some(opt_string_view(v)),
            None => keyed_lookup(lines(text@), version_key()) is None,
        },
{
    proof {
        reveal_strlit("version:");
        assert(byte_len("version:"@) == 8) by {
            reveal_with_fuel(byte_len, 9);
        }
    }
    match keyed_lookup_of(text, "version:") {
        Some(_) => Some(parse_cabal_version(text)),
        None => None,
    }
}


/// Whether a line is the version line: its trimmed, lowercased form
/// starts with `version:`.
pub open spec fn is_version_line(line: Seq<char>) -> bool {
    version_key().is_prefix_of(lowercase(trim(line)))
}

/// The version line with its value replaced by `new`, keeping the key
/// (indentation and casing) and the spacing after the colon (one space
/// when there was none); `None` when the line has no colon.
pub open spec fn rewrite_version_line(line: Seq<char>, new: Seq<char>) -> Option<Seq<char>> {
    match first_index(line, ':') {
        None => None,
        Some(ci) => {
            let after = line.skip(ci + 1);
            let k = after.len() - trim_start(after).len();
            let padding = if k > 0 {
                after.take(k)
            } else {
                " "@
            };
            Some(line.take(ci + 1) + padding + new)
        },
    }
}

/// The lines with the first version line rewritten (unchanged when
/// there is none); `None` when that line has no colon.
pub open spec fn rewrite_lines(ls: Seq<Seq<char>>, new: Seq<char>) -> Option<Seq<Seq<char>>>
    decreases ls.len(),
{
    if ls.len() == 0 {
        Some(ls)
    } else if is_version_line(ls[0]) {
        match rewrite_version_line(ls[0], new) {
            Some(l) => Some(seq![l] + ls.drop_first()),
            None => None,
        }
    } else {
        match rewrite_lines(ls.drop_first(), new) {
            Some(r) => Some(seq![ls[0]] + r),
            None => None,
        }
    }
}

/// The text of a `.cabal` file with its version set to `new`: lines
/// rejoined with `\n`, and a final `\n` kept when the text had one.
pub open spec fn bump_cabal_text(text: Seq<char>, new: Seq<char>) -> Option<Seq<char>> {
    match rewrite_lines(lines(text), new) {
        Some(ls) => {
            let joined = join(ls, "\n"@);
            Some(
                if is_suffix("\n"@, text) && !is_suffix("\n"@, joined) {
                    joined + "\n"@
                } else {
                    joined
                },
            )
        },
        None => None,
    }
}

/// What `bump_cabal_file` yields: `None` where it panics (an unreadable
/// line, a version line without a colon, or a component overflow).
pub open spec fn bump_cabal_spec(text: Seq<char>, kind_or_target: Seq<char>) -> Option<Result<(Seq<char>, Seq<char>, Seq<char>), BumpErrorView>> {
    match keyed_lookup(lines(text), version_key()) {
        None => None,
        Some(None) => Some(Err(BumpErrorView::MissingVersion)),
        Some(Some(old)) => if new_version_overflows(old, kind_or_target) {
            None
        } else {
            match new_version_spec(old, kind_or_target) {
                Err(e) => Some(Err(e)),
                Ok(new) => match bump_cabal_text(text, new) {
                    Some(t) => Some(Ok((old, new, t))),
                    None => None,
                },
            }
        },
    }
}

proof fn lemma_rewrite_at(ls: Seq<Seq<char>>, new: Seq<char>, m: int)
    requires
        0 <= m < ls.len(),
        is_version_line(ls[m]),
        forall|j: int| 0 <= j < m ==> !is_version_line(#[trigger] ls[j]),
    ensures
        rewrite_lines(ls, new) == match rewrite_version_line(ls[m], new) {
            Some(l) => Some(ls.take(m) + seq![l] + ls.skip(m + 1)),
            None => None::<Seq<Seq<char>>>,
        },
    decreases m,
{
    if m == 0 {
        match rewrite_version_line(ls[0], new) {
            Some(l) => {
                assert(seq![l] + ls.drop_first() =~= ls.take(0) + seq![l] + ls.skip(1));
            },
            None => {},
        }
    } else {
        let t = ls.drop_first();
        assert forall|j: int| 0 <= j < m - 1 implies !is_version_line(#[trigger] t[j]) by {
            assert(t[j] == ls[j + 1]);
        }
        lemma_rewrite_at(t, new, m - 1);
        match rewrite_version_line(ls[m], new) {
            Some(l) => {
                assert(seq![ls[0]] + (t.take(m - 1) + seq![l] + t.skip(m)) =~= ls.take(m) + seq![l]
                    + ls.skip(m + 1));
            },
            None => {},
        }
    }
}

proof fn lemma_rewrite_none(ls: Seq<Seq<char>>, new: Seq<char>)
    requires
        forall|j: int| 0 <= j < ls.len() ==> !is_version_line(#[trigger] ls[j]),
    ensures
        rewrite_lines(ls, new) == Some(ls),
    decreases ls.len(),
{
    if ls.len() > 0 {
        let t = ls.drop_first();
        assert forall|j: int| 0 <= j < t.len() implies !is_version_line(#[trigger] t[j]) by {
            assert(t[j] == ls[j + 1]);
        }
        lemma_rewrite_none(t, new);
        assert(seq![ls[0]] + t =~= ls);
    }
}

/// The version line rewritten to `new`, or `None` when it has no colon.
fn rewrite_version_line_of(line: &str, new: &str) -> (r: Option<String>)
    ensures
        match r {
            Some(l) => rewrite_version_line(line@, new@) == Some(l@),
            None => rewrite_version_line(line@, new@) is None,
        },
{
    let lv = to_chars(line);
    assert(lv@.subrange(0, lv@.len() as int) =~= lv@);
    match find_char(&lv, 0, lv.len(), ':') {
        None => None,
        Some(ci) => {
            let k = skip_ws_forward(&lv, ci + 1, lv.len());
            let ghost after = lv@.skip(ci + 1);
            assert(lv@.subrange(ci + 1, lv@.len() as int) =~= after);
            assert(lv@.subrange(k as int, lv@.len() as int).len() == lv@.len() - k);
            assert(lv@.subrange(ci + 1, k as int) =~= after.take(k - (ci + 1)));
            let head = string_of_range(&lv, 0, ci + 1);
            assert(lv@.subrange(0, ci + 1) =~= lv@.take(ci + 1));
            let with_pad = if k > ci + 1 {
                let pad = string_of_range(&lv, ci + 1, k);
                concat(head.as_str(), pad.as_str())
            } else {
                concat(head.as_str(), " ")
            };
            Some(concat(with_pad.as_str(), new))
        },
    }
}

/// The index of the first version line, if any.
fn first_version_line(ls: &Vec<String>) -> (r: Option<usize>)
    ensures
        match r {
            Some(m) => m < ls@.len() && is_version_line(ls@[m as int]@) && forall|j: int|
                0 <= j < m ==> !is_version_line(#[trigger] views(ls@)[j]),
            None => forall|j: int| 0 <= j < ls@.len() ==> !is_version_line(#[trigger] views(ls@)[j]),
        },
{
    let mut i: usize = 0;
    while i < ls.len()
        invariant
            i <= ls@.len(),
            forall|j: int| 0 <= j < i ==> !is_version_line(#[trigger] views(ls@)[j]),
        decreases ls@.len() - i,
    {
        let t = crate::text::trim_str(ls[i].as_str());
        let lower = to_lowercase(t.as_str());
        if starts_with(lower.as_str(), "version:") {
            return Some(i);
        }
        assert(views(ls@)[i as int] == ls@[i as int]@);
        i = i + 1;
    }
    None
}

/// The text with its version line set to `new`; `None` when the
/// version line has no colon.
fn bump_cabal_text_of(text: &str, new: &str) -> (r: Option<String>)
    ensures
        match r {
            Some(t) => bump_cabal_text(text@, new@) == Some(t@),
            None => bump_cabal_text(text@, new@) is None,
        },
{
    let ls = lines_of(text);
    let ghost lv = lines(text@);
    assert(views(ls@) == lv);
    let mut out: Vec<String> = Vec::new();
    match first_version_line(&ls) {
        None => {
            proof {
                lemma_rewrite_none(lv, new@);
            }
            let mut i: usize = 0;
            while i < ls.len()
                invariant
                    i <= ls@.len(),
                    out@.len() == i,
                    forall|j: int| 0 <= j < i ==> (#[trigger] out@[j])@ == ls@[j]@,
                decreases ls@.len() - i,
            {
                out.push(ls[i].clone());
                i = i + 1;
            }
            assert(views(out@) =~= lv);
        },
        Some(m) => {
            proof {
                lemma_rewrite_at(lv, new@, m as int);
            }
            let rewritten = match rewrite_version_line_of(ls[m].as_str(), new) {
                Some(l) => l,
                None => return None,
            };
            let mut i: usize = 0;
            while i < ls.len()
                invariant
                    i <= ls@.len(),
                    m < ls@.len(),
                    out@.len() == i,
                    forall|j: int| 0 <= j < i && j != m ==> (#[trigger] out@[j])@ == ls@[j]@,
                    i > m ==> out@[m as int]@ == rewritten@,
                decreases ls@.len() - i,
            {
                if i == m {
                    out.push(rewritten.clone());
                } else {
                    out.push(ls[i].clone());
                }
                i = i + 1;
            }
            let ghost want = lv.take(m as int) + seq![rewritten@] + lv.skip(m + 1);
            assert(views(out@) =~= want);
        },
    }
    let joined = join_strings(&out, "\n");
    if ends_with(text, "\n") && !ends_with(joined.as_str(), "\n") {
        Some(concat(joined.as_str(), "\n"))
    } else {
        Some(joined)
    }
}

/// Whether bumping `current` by `kind` would overflow a component.
fn bump_would_overflow(current: (u64, u64, u64), kind: &str) -> (r: bool)
    ensures
        r == bump_overflows(current, kind@),
{
    (eq_str(kind, "major") && current.0 == u64::MAX) || (!eq_str(kind, "major") && eq_str(kind, "minor")
        && current.1 == u64::MAX) || (!eq_str(kind, "major") && !eq_str(kind, "minor") && eq_str(
        kind,
        "patch",
    ) && current.2 == u64::MAX)
}

/// Every step of `bump_cabal_file`; `None` where it would panic.
fn bump_cabal_steps(text: &str, kind_or_target: &str) -> (r: Option<Result<(String, String, String), BumpError>>)
    ensures
        match r {
            None => bump_cabal_spec(text@, kind_or_target@) is None,
            Some(Err(e)) => bump_cabal_spec(text@, kind_or_target@) == Some(
                Err::<(Seq<char>, Seq<char>, Seq<char>), BumpErrorView>(e@),
            ),
            Some(Ok(t)) => bump_cabal_spec(text@, kind_or_target@) == Some(
                Ok::<(Seq<char>, Seq<char>, Seq<char>), BumpErrorView>((t.0@, t.1@, t.2@)),
            ),
        },
{
    let old = match parse_cabal_version_checked(text) {
        None => return None,
        Some(None) => return Some(Err(BumpError::MissingVersion)),
        Some(Some(v)) => v,
    };
    if eq_str(kind_or_target, "major") || eq_str(kind_or_target, "minor") || eq_str(
        kind_or_target,
        "patch",
    ) {
        let parsed = match parse_semver(old.as_str()) {
            Ok(t) => t,
            Err(e) => return Some(Err(e)),
        };
        if bump_would_overflow(parsed, kind_or_target) {
            return None;
        }
    }
    let new = match new_version(old.as_str(), kind_or_target) {
        Ok(n) => n,
        Err(e) => return Some(Err(e)),
    };
    match bump_cabal_text_of(text, new.as_str()) {
        Some(t) => Some(Ok((old, new, t))),
        None => None,
    }
}

/// Bump the `version:` field in a `.cabal` file. Returns
/// `(old, new, new_text)`.
pub fn bump_cabal_file(text: &str, kind_or_target: &str) -> (r: Result<(String, String, String), BumpError>)
    requires
        bump_cabal_spec(text@, kind_or_target@) is Some,
    ensures
        match r {
            Err(e) => bump_cabal_spec(text@, kind_or_target@) == Some(
                Err::<(Seq<char>, Seq<char>, Seq<char>), BumpErrorView>(e@),
            ),
            Ok(t) => bump_cabal_spec(text@, kind_or_target@) == Some(
                Ok::<(Seq<char>, Seq<char>, Seq<char>), BumpErrorView>((t.0@, t.1@, t.2@)),
            ),
        },
{
    match bump_cabal_steps(text, kind_or_target) {
        Some(r) => r,
        None => Err(BumpError::MissingVersion),
    }
}

/// `bump_cabal_file` for any input: `None` where it would panic.
pub fn bump_cabal_file_checked(text: &str, kind_or_target: &str) -> (r: Option<Result<(String, String, String), BumpError>>)
    ensures
        match r {
            None => bump_cabal_spec(text@, kind_or_target@) is None,
            Some(Err(e)) => bump_cabal_spec(text@, kind_or_target@) == Some(
                Err::<(Seq<char>, Seq<char>, Seq<char>), BumpErrorView>(e@),
            ),
            Some(Ok(t)) => bump_cabal_spec(text@, kind_or_target@) == Some(
                Ok::<(Seq<char>, Seq<char>, Seq<char>), BumpErrorView>((t.0@, t.1@, t.2@)),
            ),
        },
{
    match bump_cabal_steps(text, kind_or_target) {
        Some(_) => Some(bump_cabal_file(text, kind_or_target)),
        None => None,
    }
}

/// The secret key path (under `secrets://`) for a publish channel;
/// `None` for an unknown channel.
pub open spec fn channel_secret_key(channel: Seq<char>) -> Option<Seq<char>> {
    if channel == "crates.io"@ {
        Some("cargo/token"@)
    } else if channel == "npm"@ {
        Some("npm/token"@)
    } else if channel == "pypi"@ {
        Some("pypi/token"@)
    } else if channel == "hackage"@ {
        Some("hackage/token"@)
    } else {
        None
    }
}

/// The secret key path (under `secrets://`) for a given publish channel.
/// Returns `None` for unknown channels.
pub fn secret_key_for_channel(channel: &str) -> (r: Option<&'static str>)
    ensures
        match r {
            Some(k) => channel_secret_key(channel@) == Some(k@),
            None => channel_secret_key(channel@) is None,
        },
{
    if eq_str(channel, "crates.io") {
        Some("cargo/token")
    } else if eq_str(channel, "npm") {
        Some("npm/token")
    } else if eq_str(channel, "pypi") {
        Some("pypi/token")
    } else if eq_str(channel, "hackage") {
        Some("hackage/token")
    } else {
        None
    }
}

/// `s` with each `'` written as `'\''`.
pub open spec fn quote_escaped(s: Seq<char>) -> Seq<char>
    decreases s.len(),
{
    if s.len() == 0 {
        Seq::<char>::empty()
    } else {
        quote_escaped(s.drop_last()) + if s.last() == '\'' {
            "'\\''"@
        } else {
            seq![s.last()]
        }
    }
}

/// Minimal shell escaping: wrap in single quotes, escaping embedded
/// single quotes via the `'\''` idiom.
pub fn shell_escape(s: &str) -> (r: String)
    ensures
        r@ == "'"@ + quote_escaped(s@) + "'"@,
{
    let v = to_chars(s);
    let mut out = String::new();
    crate::text::push_char(&mut out, '\'');
    proof {
        reveal_strlit("'");
        reveal_strlit("'\\''");
    }
    let mut i: usize = 0;
    while i < v.len()
        invariant
            i <= v@.len(),
            v@ == s@,
            out@ == "'"@ + quote_escaped(s@.take(i as int)),
        decreases v@.len() - i,
    {
        assert(s@.take(i + 1).drop_last() =~= s@.take(i as int));
        proof {
            reveal_strlit("'");
            reveal_strlit("'\\''");
        }
        if v[i] == '\'' {
            crate::text::push_char(&mut out, '\'');
            crate::text::push_char(&mut out, '\\');
            crate::text::push_char(&mut out, '\'');
            crate::text::push_char(&mut out, '\'');
        } else {
            crate::text::push_char(&mut out, v[i]);
        }
        assert(out@ =~= "'"@ + quote_escaped(s@.take(i + 1)));
        i = i + 1;
    }
    assert(s@.take(s@.len() as int) =~= s@);
    crate::text::push_char(&mut out, '\'');
    out
}

/// The shell command that publishes on `channel`, with the escaped
/// token `e` embedded; `None` for an unknown channel. None of them
/// passes `--allow-dirty`.
pub open spec fn publish_command_spec(channel: Seq<char>, e: Seq<char>) -> Option<Seq<char>> {
    if channel == "crates.io"@ {
        Some("CARGO_REGISTRY_TOKEN="@ + e + " cargo publish"@)
    } else if channel == "npm"@ {
        Some("NPM_TOKEN="@ + e + " npm publish"@)
    } else if channel == "pypi"@ {
        Some("TWINE_USERNAME=__token__ TWINE_PASSWORD="@ + e + " twine upload dist/*"@)
    } else if channel == "hackage"@ {
        Some(
            "cabal sdist && cabal upload --publish --token="@ + e
                + " \"$(cabal sdist 2>/dev/null | tail -1)\""@,
        )
    } else {
        None
    }
}

/// Build the shell command string to publish a package on `channel`,
/// with the resolved `token` shell-escaped into it. For hackage the
/// tarball path is taken from `cabal sdist`'s output at run time.
pub fn publish_command(channel: &str, token: &str) -> (r: Option<String>)
    ensures
        match r {
            Some(c) => publish_command_spec(channel@, "'"@ + quote_escaped(token@) + "'"@) == Some(c@),
            None => publish_command_spec(channel@, "'"@ + quote_escaped(token@) + "'"@) is None,
        },
{
    let escaped = shell_escape(token);
    if eq_str(channel, "crates.io") {
        let a = concat("CARGO_REGISTRY_TOKEN=", escaped.as_str());
        Some(concat(a.as_str(), " cargo publish"))
    } else if eq_str(channel, "npm") {
        let a = concat("NPM_TOKEN=", escaped.as_str());
        Some(concat(a.as_str(), " npm publish"))
    } else if eq_str(channel, "pypi") {
        let a = concat("TWINE_USERNAME=__token__ TWINE_PASSWORD=", escaped.as_str());
        Some(concat(a.as_str(), " twine upload dist/*"))
    } else if eq_str(channel, "hackage") {
        let a = concat("cabal sdist && cabal upload --publish --token=", escaped.as_str());
        Some(concat(a.as_str(), " \"$(cabal sdist 2>/dev/null | tail -1)\""))
    } else {
        None
    }
}

/// The `[package].version` of a Cargo.toml as toml_edit reads it: the
/// parse error's message, `None` when `[package]` is not a table or its
/// `version` is not a string, else the version.
pub uninterp spec fn toml_package_version(text: Seq<char>) -> Result<Option<Seq<char>>, Seq<char>>;

/// The Cargo.toml with `[package].version` set to `new` by toml_edit,
/// formatting kept.
pub uninterp spec fn toml_with_package_version(text: Seq<char>, new: Seq<char>) -> Seq<char>;

/// Parses `text` with `toml_edit::DocumentMut::from_str` and reads
/// `[package].version` through `Table::get`, `Item::as_table` and
/// `Item::as_str`. The result is named `toml_package_version`; what it
/// is on given text is not stated here.
#[verifier::external_body]
fn cargo_package_version(text: &str) -> (r: Result<Option<String>, String>)
    ensures
        match r {
            Ok(Some(v)) => toml_package_version(text@) == Ok::<Option<Seq<char>>, Seq<char>>(Some(v@)),
            Ok(None) => toml_package_version(text@) == Ok::<Option<Seq<char>>, Seq<char>>(None),
            Err(e) => toml_package_version(text@) == Err::<Option<Seq<char>>, Seq<char>>(e@),
        },
{
    match text.parse::<toml_edit::DocumentMut>() {
        Err(e) => Err(e.to_string()),
        Ok(doc) => Ok(doc.get("package").and_then(|t| t.as_table()).and_then(|p| p.get("version")).and_then(
            |v| v.as_str(),
        ).map(|v| v.to_string())),
    }
}

/// Parses `text` with `toml_edit::DocumentMut::from_str`, sets
/// `[package].version` to `new` with `toml_edit::value` and prints the
/// document back (`DocumentMut`'s `Display`). The result is named
/// `toml_with_package_version`. Only called on text whose `[package]`
/// table parsed, so neither lookup fails.
#[verifier::external_body]
fn cargo_set_package_version(text: &str, new: &str) -> (r: String)
    requires
        toml_package_version(text@) is Ok,
        toml_package_version(text@)->Ok_0 is Some,
    ensures
        r@ == toml_with_package_version(text@, new@),
{
    let mut doc: toml_edit::DocumentMut = text.parse().unwrap();
    doc["package"]["version"] = toml_edit::value(new.to_owned());
    doc.to_string()
}

/// What `bump_cargo_toml` yields: the parse error, a missing version,
/// the version error, or `(old, new, text with new)`.
pub open spec fn bump_cargo_spec(text: Seq<char>, kind_or_target: Seq<char>) -> Result<
    (Seq<char>, Seq<char>, Seq<char>),
    BumpErrorView,
> {
    match toml_package_version(text) {
        Err(m) => Err(BumpErrorView::Toml(m)),
        Ok(None) => Err(BumpErrorView::MissingVersion),
        Ok(Some(old)) => match new_version_spec(old, kind_or_target) {
            Err(e) => Err(e),
            Ok(new) => Ok((old, new, toml_with_package_version(text, new))),
        },
    }
}

/// A bump of the Cargo.toml version that would overflow a component.
pub open spec fn cargo_bump_overflows(text: Seq<char>, kind_or_target: Seq<char>) -> bool {
    match toml_package_version(text) {
        Ok(Some(old)) => new_version_overflows(old, kind_or_target),
        _ => false,
    }
}

/// Edit the `version` in `[package]` of a Cargo.toml, keeping its
/// formatting. Returns `(old, new, new_text)`.
pub fn bump_cargo_toml(text: &str, kind_or_target: &str) -> (r: Result<(String, String, String), BumpError>)
    requires
        !cargo_bump_overflows(text@, kind_or_target@),
    ensures
        match r {
            Ok(t) => bump_cargo_spec(text@, kind_or_target@) == Ok::<
                (Seq<char>, Seq<char>, Seq<char>),
                BumpErrorView,
            >((t.0@, t.1@, t.2@)),
            Err(e) => bump_cargo_spec(text@, kind_or_target@) == Err::<
                (Seq<char>, Seq<char>, Seq<char>),
                BumpErrorView,
            >(e@),
        },
{
    let old = match cargo_package_version(text) {
        Err(m) => return Err(BumpError::Toml(m)),
        Ok(None) => return Err(BumpError::MissingVersion),
        Ok(Some(v)) => v,
    };
    let new = match new_version(old.as_str(), kind_or_target) {
        Ok(n) => n,
        Err(e) => return Err(e),
    };
    let out = cargo_set_package_version(text, new.as_str());
    Ok((old, new, out))
}

/// `bump_cargo_toml` for any input: `None` where a component would
/// overflow.
pub fn bump_cargo_toml_checked(text: &str, kind_or_target: &str) -> (r: Option<Result<(String, String, String), BumpError>>)
    ensures
        match r {
            None => cargo_bump_overflows(text@, kind_or_target@),
            Some(Ok(t)) => !cargo_bump_overflows(text@, kind_or_target@) && bump_cargo_spec(
                text@,
                kind_or_target@,
            ) == Ok::<(Seq<char>, Seq<char>, Seq<char>), BumpErrorView>((t.0@, t.1@, t.2@)),
            Some(Err(e)) => !cargo_bump_overflows(text@, kind_or_target@) && bump_cargo_spec(
                text@,
                kind_or_target@,
            ) == Err::<(Seq<char>, Seq<char>, Seq<char>), BumpErrorView>(e@),
        },
{
    match cargo_package_version(text) {
        Ok(Some(old)) => {
            if eq_str(kind_or_target, "major") || eq_str(kind_or_target, "minor") || eq_str(
                kind_or_target,
                "patch",
            ) {
                match parse_semver(old.as_str()) {
                    Ok(t) => {
                        if bump_would_overflow(t, kind_or_target) {
                            return None;
                        }
                    },
                    Err(_) => {},
                }
            }
        },
        _ => {},
    }
    Some(bump_cargo_toml(text, kind_or_target))
}

} // verus!
