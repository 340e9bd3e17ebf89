//! Local-patch detection across ecosystems.
//!
//! Two categories of local patching are reported per repo:
//!
//! * `declared_override`: a manifest deliberately redirects a
//!   dependency at a local path, fork or pin: Rust `[patch]`,
//!   `[replace]` and `path =` dependencies, Go `replace => ./local`, npm
//!   `file:`/`link:`/`portal:` specifiers, `resolutions`/`overrides` and
//!   patch-package, Python editable installs and path dependencies,
//!   Composer `path` repositories, Ruby `path:`/`git:` gems, Gradle
//!   `includeBuild`/`project(...)`, Maven system-scoped paths.
//! * `vendored_edit`: a checked-in vendored tree (`vendor/`,
//!   `third_party/`, ...) has uncommitted edits.
//!
//! Each scanner takes what was read from the repo (text, or a parsed
//! document) and appends its findings; a manifest that could not be
//! read or parsed gives none.

use vstd::prelude::*;

use crate::doc::{get_spec, json_doc, parse_json, parse_toml, toml_doc, DocValue};
use crate::text::{
    concat, decimal, ends_with, is_suffix, join, join_strings, u64_to_string, contains, contains_str, eq_str, find_str, is_ws, lines, lines_of, starts_with,
    string_of_range, to_chars, trim, trim_start, trim_str, views,
};
use crate::v5::ops::git::{first_word, skip_word, word_len};

verus! {

/// One local-patch signal found in a repo.
#[derive(Debug, Clone)]
pub struct Finding {
    /// `cargo` | `go` | `npm` | `python` | `composer` | `ruby` |
    /// `gradle` | `maven` | `vendor`.
    pub ecosystem: String,
    /// `declared_override` | `vendored_edit`.
    pub category: String,
    /// The specific signal, such as `patch_table`, `path_dep`,
    /// `replace_directive` or `dirty_vendor`.
    pub kind: String,
    /// Human-readable specifics (dependency name, target path, ...).
    pub detail: String,
    /// The file the signal came from, relative to the repo root.
    pub file: String,
}

/// A finding as plain values.
pub struct FindingView {
    pub ecosystem: Seq<char>,
    pub category: Seq<char>,
    pub kind: Seq<char>,
    pub detail: Seq<char>,
    pub file: Seq<char>,
}

impl View for Finding {
    type V = FindingView;

    open spec fn view(&self) -> FindingView {
        FindingView {
            ecosystem: self.ecosystem@,
            category: self.category@,
            kind: self.kind@,
            detail: self.detail@,
            file: self.file@,
        }
    }
}

/// The findings as plain values.
pub open spec fn finding_views(s: Seq<Finding>) -> Seq<FindingView> {
    s.map_values(|f: Finding| f@)
}

/// A declared override of `eco`.
pub open spec fn declared(eco: Seq<char>, kind: Seq<char>, detail: Seq<char>, file: Seq<char>) -> FindingView {
    FindingView { ecosystem: eco, category: "declared_override"@, kind, detail, file }
}

/// The findings a scanner appends, given what `out` held before.
pub open spec fn appended(old_out: Seq<Finding>, new_out: Seq<Finding>, add: Seq<FindingView>) -> bool {
    finding_views(new_out) == finding_views(old_out) + add
}

fn push_declared(out: &mut Vec<Finding>, eco: &str, kind: &str, detail: String, file: &str)
    ensures
        appended(old(out)@, final(out)@, seq![declared(eco@, kind@, detail@, file@)]),
{
    let ghost before = out@;
    out.push(
        Finding {
            ecosystem: eco.to_string(),
            category: "declared_override".to_string(),
            kind: kind.to_string(),
            detail,
            file: file.to_string(),
        },
    );
    assert(finding_views(out@) =~= finding_views(before) + seq![declared(eco@, kind@, detail@, file@)]);
}

/// The findings of the lines `ls` when each line gives at most one.
pub open spec fn per_line(ls: Seq<Seq<char>>, f: spec_fn(Seq<char>) -> Option<FindingView>) -> Seq<FindingView>
    decreases ls.len(),
{
    if ls.len() == 0 {
        Seq::empty()
    } else {
        let rest = per_line(ls.drop_last(), f);
        match f(ls.last()) {
            Some(x) => rest.push(x),
            None => rest,
        }
    }
}

/// The first 120 characters of `s`.
pub open spec fn clip(s: Seq<char>) -> Seq<char> {
    if s.len() <= 120 {
        s
    } else {
        s.take(120)
    }
}

/// The first 120 characters of `s`.
pub fn clip_str(s: &str) -> (r: String)
    ensures
        r@ == clip(s@),
{
    let v = to_chars(s);
    if v.len() <= 120 {
        assert(v@.subrange(0, v@.len() as int) =~= v@);
        string_of_range(&v, 0, v.len())
    } else {
        assert(v@.subrange(0, 120) =~= v@.take(120));
        string_of_range(&v, 0, 120)
    }
}

/// The characters of `s` from `lo`.
fn skip_str(s: &str, lo: usize) -> (r: String)
    requires
        lo <= s@.len(),
    ensures
        r@ == s@.skip(lo as int),
{
    let v = to_chars(s);
    assert(v@.subrange(lo as int, v@.len() as int) =~= v@.skip(lo as int));
    string_of_range(&v, lo, v.len())
}

/// The characters of `s` before `hi`.
fn take_str(s: &str, hi: usize) -> (r: String)
    requires
        hi <= s@.len(),
    ensures
        r@ == s@.take(hi as int),
{
    let v = to_chars(s);
    assert(v@.subrange(0, hi as int) =~= v@.take(hi as int));
    string_of_range(&v, 0, hi)
}

/// The first index of `needle` in `s` (`str::find`).
fn find_in(s: &str, needle: &str) -> (r: Option<usize>)
    ensures
        match r {
            Some(i) => find_str(s@, needle@) == Some(i as int) && i + needle@.len() <= s@.len(),
            None => find_str(s@, needle@) is None,
        },
        s@.len() <= usize::MAX,
{
    let v = to_chars(s);
    let n = to_chars(needle);
    assert(v@.subrange(0, v@.len() as int) =~= v@);
    let r = crate::text::find_str_range(&v, 0, v.len(), &n);
    proof {
        crate::text::lemma_find_from_spec(s@, needle@, 0);
    }
    r
}

/// The first whitespace-separated word of `s`, or nothing.
pub open spec fn first_word_or_empty(s: Seq<char>) -> Seq<char> {
    match first_word(s) {
        Some(w) => w,
        None => Seq::empty(),
    }
}

fn first_word_str(s: &str) -> (r: String)
    ensures
        r@ == first_word_or_empty(s@),
{
    let v = to_chars(s);
    let a = crate::text::skip_ws_forward(&v, 0, v.len());
    assert(v@.subrange(0, v@.len() as int) =~= v@);
    let b = skip_word(&v, a, v.len());
    let ghost t = v@.subrange(a as int, v@.len() as int);
    assert(t.take(word_len(t) as int) =~= v@.subrange(a as int, b as int));
    string_of_range(&v, a, b)
}

// ---------------------------------------------------------------------
// Go.
// ---------------------------------------------------------------------

/// A `replace` target that is a filesystem path rather than a module.
pub open spec fn local_target(t: Seq<char>) -> bool {
    "./"@.is_prefix_of(t) || "../"@.is_prefix_of(t) || "/"@.is_prefix_of(t) || ".\\"@.is_prefix_of(t)
}

/// The finding of the body of a `replace` directive, if its target is
/// local: what precedes `=>`, trimmed, and the first word after it.
pub open spec fn go_body_finding(body: Seq<char>) -> Option<FindingView> {
    match find_str(body, "=>"@) {
        None => None,
        Some(p) => {
            let target = first_word_or_empty(body.skip(p + 2));
            if local_target(target) {
                Some(declared("go"@, "replace_directive"@, trim(body.take(p)) + " (replace => "@ + target + ")"@, "go.mod"@))
            } else {
                None
            }
        },
    }
}

/// One line of `go.mod` read while inside (or outside) a `replace (`
/// block: whether the block is open after it, and its finding.
pub open spec fn go_step(in_block: bool, raw: Seq<char>) -> (bool, Option<FindingView>) {
    let line = trim(raw);
    if "replace ("@.is_prefix_of(line) {
        (true, None)
    } else if in_block && line == ")"@ {
        (false, None)
    } else if in_block {
        (true, go_body_finding(line))
    } else if "replace "@.is_prefix_of(line) {
        (false, go_body_finding(trim(line.skip(8))))
    } else {
        (false, None)
    }
}

/// The findings of the lines `ls` of `go.mod`, and whether a block is
/// open after them.
pub open spec fn go_scan(ls: Seq<Seq<char>>) -> (bool, Seq<FindingView>)
    decreases ls.len(),
{
    if ls.len() == 0 {
        (false, Seq::empty())
    } else {
        let (open, acc) = go_scan(ls.drop_last());
        let (open2, f) = go_step(open, ls.last());
        (open2, match f {
            Some(x) => acc.push(x),
            None => acc,
        })
    }
}

fn go_body(body: &str, out: &mut Vec<Finding>)
    ensures
        appended(
            old(out)@,
            final(out)@,
            match go_body_finding(body@) {
                Some(x) => seq![x],
                None => Seq::empty(),
            },
        ),
{
    proof {
        reveal_strlit("=>");
    }
    match find_in(body, "=>") {
        None => {
            assert(finding_views(out@) =~= finding_views(out@) + Seq::<FindingView>::empty());
        },
        Some(p) => {
            proof {
                reveal_strlit("=>");
            }
            let rhs = skip_str(body, p + 2);
            let target = first_word_str(rhs.as_str());
            proof {
                reveal_strlit("./");
                reveal_strlit("../");
                reveal_strlit("/");
                reveal_strlit(".\\");
            }
            if starts_with(target.as_str(), "./") || starts_with(target.as_str(), "../") || starts_with(
                target.as_str(),
                "/",
            ) || starts_with(target.as_str(), ".\\") {
                let lhs = trim_str(take_str(body, p).as_str());
                let a = concat(lhs.as_str(), " (replace => ");
                let b = concat(a.as_str(), target.as_str());
                let d = concat(b.as_str(), ")");
                push_declared(out, "go", "replace_directive", d, "go.mod");
            } else {
                assert(finding_views(out@) =~= finding_views(out@) + Seq::<FindingView>::empty());
            }
        },
    }
}

/// The `replace` directives of `go.mod` (`text`) that point at a local
/// path, inside or outside a `replace ( ... )` block.
pub fn scan_go(text: &str, out: &mut Vec<Finding>)
    ensures
        appended(old(out)@, final(out)@, go_scan(lines(text@)).1),
{
    let ls = lines_of(text);
    let ghost start = out@;
    let mut in_block = false;
    let mut i: usize = 0;
    while i < ls.len()
        invariant
            i <= ls@.len(),
            views(ls@) == lines(text@),
            (in_block, finding_views(out@).skip(finding_views(start).len() as int)) == go_scan(
                views(ls@).take(i as int),
            ),
            finding_views(start).is_prefix_of(finding_views(out@)),
        decreases ls@.len() - i,
    {
        let ghost before = out@;
        let ghost prev = views(ls@).take(i as int);
        assert(views(ls@).take(i + 1).drop_last() =~= prev);
        assert(views(ls@).take(i + 1).last() == ls@[i as int]@);
        let line = trim_str(ls[i].as_str());
        proof {
            reveal_strlit("replace (");
            reveal_strlit(")");
            reveal_strlit("replace ");
        }
        if starts_with(line.as_str(), "replace (") {
            in_block = true;
        } else if in_block && eq_str(line.as_str(), ")") {
            in_block = false;
        } else if in_block {
            go_body(line.as_str(), out);
        } else if starts_with(line.as_str(), "replace ") {
            let body = trim_str(skip_str(line.as_str(), 8).as_str());
            go_body(body.as_str(), out);
        }
        proof {
            let (o, acc) = go_scan(prev);
            let (o2, f) = go_step(o, ls@[i as int]@);
            assert(o2 == in_block);
            let added = match f {
                Some(x) => seq![x],
                None => Seq::<FindingView>::empty(),
            };
            assert(finding_views(out@) == finding_views(before) + added);
            assert(finding_views(before) =~= finding_views(start) + acc);
            assert(finding_views(out@).skip(finding_views(start).len() as int) =~= acc + added);
            match f {
                Some(x) => assert(acc + added =~= acc.push(x)),
                None => assert(acc + added =~= acc),
            }
            assert(finding_views(start).is_prefix_of(finding_views(out@))) by {
                assert(finding_views(out@) =~= finding_views(start) + (acc + added));
            }
        }
        i = i + 1;
    }
    proof {
        assert(views(ls@).take(i as int) =~= lines(text@));
        assert(finding_views(out@) =~= finding_views(start) + finding_views(out@).skip(finding_views(start).len() as int));
    }
}

// ---------------------------------------------------------------------
// Line-by-line scanners.
// ---------------------------------------------------------------------

/// At most one finding, as a sequence.
pub open spec fn opt_seq(o: Option<FindingView>) -> Seq<FindingView> {
    match o {
        Some(x) => seq![x],
        None => Seq::empty(),
    }
}

proof fn lemma_per_line_step(ls: Seq<Seq<char>>, i: int, f: spec_fn(Seq<char>) -> Option<FindingView>)
    requires
        0 <= i < ls.len(),
    ensures
        per_line(ls.take(i + 1), f) == per_line(ls.take(i), f) + opt_seq(f(ls[i])),
{
    assert(ls.take(i + 1).drop_last() =~= ls.take(i));
    match f(ls[i]) {
        Some(x) => assert(per_line(ls.take(i), f).push(x) =~= per_line(ls.take(i), f) + seq![x]),
        None => assert(per_line(ls.take(i), f) =~= per_line(ls.take(i), f) + Seq::<FindingView>::empty()),
    }
}

proof fn lemma_appended_chain(a: Seq<Finding>, b: Seq<Finding>, c: Seq<Finding>, x: Seq<FindingView>, y: Seq<FindingView>)
    requires
        appended(a, b, x),
        appended(b, c, y),
    ensures
        appended(a, c, x + y),
{
    assert(finding_views(a) + x + y =~= finding_views(a) + (x + y));
}

proof fn lemma_appended_none(a: Seq<Finding>)
    ensures
        appended(a, a, Seq::empty()),
{
    assert(finding_views(a) =~= finding_views(a) + Seq::<FindingView>::empty());
}

// ---------------------------------------------------------------------
// Ruby.
// ---------------------------------------------------------------------

/// The finding of one `Gemfile` line: a `gemspec` line, or a `gem` line
/// with a path or git source.
pub open spec fn ruby_line(raw: Seq<char>) -> Option<FindingView> {
    let line = trim(raw);
    if "#"@.is_prefix_of(line) || !"gem "@.is_prefix_of(line) {
        if "gemspec"@.is_prefix_of(line) {
            Some(declared("ruby"@, "local_gemspec"@, "gemspec"@, "Gemfile"@))
        } else {
            None
        }
    } else if contains(line, "path:"@) || contains(line, "path =>"@) || contains(line, ":path"@) {
        Some(declared("ruby"@, "path_gem"@, clip(line), "Gemfile"@))
    } else if contains(line, "git:"@) || contains(line, "github:"@) || contains(line, "git =>"@) {
        Some(declared("ruby"@, "git_gem"@, clip(line), "Gemfile"@))
    } else {
        None
    }
}

fn ruby_one(raw: &str, out: &mut Vec<Finding>)
    ensures
        appended(old(out)@, final(out)@, opt_seq(ruby_line(raw@))),
{
    let line = trim_str(raw);
    let l = line.as_str();
    if starts_with(l, "#") || !starts_with(l, "gem ") {
        if starts_with(l, "gemspec") {
            push_declared(out, "ruby", "local_gemspec", "gemspec".to_string(), "Gemfile");
        } else {
            proof { lemma_appended_none(out@); }
        }
    } else if contains_str(l, "path:") || contains_str(l, "path =>") || contains_str(l, ":path") {
        push_declared(out, "ruby", "path_gem", clip_str(l), "Gemfile");
    } else if contains_str(l, "git:") || contains_str(l, "github:") || contains_str(l, "git =>") {
        push_declared(out, "ruby", "git_gem", clip_str(l), "Gemfile");
    } else {
        proof { lemma_appended_none(out@); }
    }
}

/// The path and git gems and the local gemspec of a `Gemfile` (`text`).
pub fn scan_ruby(text: &str, out: &mut Vec<Finding>)
    ensures
        appended(old(out)@, final(out)@, per_line(lines(text@), |l: Seq<char>| ruby_line(l))),
{
    let ls = lines_of(text);
    let ghost start = out@;
    let ghost f = |l: Seq<char>| ruby_line(l);
    let mut i: usize = 0;
    proof { lemma_appended_none(out@); }
    while i < ls.len()
        invariant
            i <= ls@.len(),
            views(ls@) == lines(text@),
            f == (|l: Seq<char>| ruby_line(l)),
            appended(start, out@, per_line(views(ls@).take(i as int), f)),
        decreases ls@.len() - i,
    {
        let ghost before = out@;
        ruby_one(ls[i].as_str(), out);
        proof {
            assert(views(ls@)[i as int] == ls@[i as int]@);
            lemma_per_line_step(views(ls@), i as int, f);
            lemma_appended_chain(start, before, out@, per_line(views(ls@).take(i as int), f), opt_seq(f(ls@[i as int]@)));
        }
        i = i + 1;
    }
    assert(views(ls@).take(i as int) =~= lines(text@));
}

// ---------------------------------------------------------------------
// Gradle.
// ---------------------------------------------------------------------

/// The finding of one line of a Gradle settings file `file`.
pub open spec fn gradle_settings_line(file: Seq<char>, raw: Seq<char>) -> Option<FindingView> {
    if "includeBuild"@.is_prefix_of(trim_start(raw)) {
        Some(declared("gradle"@, "included_build"@, clip(trim(raw)), file))
    } else {
        None
    }
}

/// The finding of one line of a Gradle build file `file`.
pub open spec fn gradle_build_line(file: Seq<char>, raw: Seq<char>) -> Option<FindingView> {
    let l = trim(raw);
    if contains(l, "project("@) && (contains(l, "implementation"@) || contains(l, "api"@) || contains(l, "compile"@)) {
        Some(declared("gradle"@, "project_dependency"@, clip(l), file))
    } else if contains(l, "mavenLocal()"@) {
        Some(declared("gradle"@, "maven_local"@, "mavenLocal()"@, file))
    } else {
        None
    }
}

fn gradle_one(settings: bool, file: &str, raw: &str, out: &mut Vec<Finding>)
    ensures
        appended(
            old(out)@,
            final(out)@,
            opt_seq(if settings { gradle_settings_line(file@, raw@) } else { gradle_build_line(file@, raw@) }),
        ),
{
    if settings {
        let v = to_chars(raw);
        let a = crate::text::skip_ws_forward(&v, 0, v.len());
        assert(v@.subrange(0, v@.len() as int) =~= v@);
        let head = string_of_range(&v, a, v.len());
        if starts_with(head.as_str(), "includeBuild") {
            let t = trim_str(raw);
            push_declared(out, "gradle", "included_build", clip_str(t.as_str()), file);
        } else {
            proof { lemma_appended_none(out@); }
        }
    } else {
        let line = trim_str(raw);
        let l = line.as_str();
        if contains_str(l, "project(") && (contains_str(l, "implementation") || contains_str(l, "api")
            || contains_str(l, "compile")) {
            push_declared(out, "gradle", "project_dependency", clip_str(l), file);
        } else if contains_str(l, "mavenLocal()") {
            push_declared(out, "gradle", "maven_local", "mavenLocal()".to_string(), file);
        } else {
            proof { lemma_appended_none(out@); }
        }
    }
}

/// The findings of one Gradle file.
pub open spec fn gradle_file(settings: bool, file: Seq<char>, text: Option<Seq<char>>) -> Seq<FindingView> {
    match text {
        None => Seq::empty(),
        Some(t) => if settings {
            per_line(lines(t), |l: Seq<char>| gradle_settings_line(file, l))
        } else {
            per_line(lines(t), |l: Seq<char>| gradle_build_line(file, l))
        },
    }
}

fn gradle_scan_file(settings: bool, file: &str, text: Option<&str>, out: &mut Vec<Finding>)
    ensures
        appended(old(out)@, final(out)@, gradle_file(settings, file@, match text {
            Some(t) => Some(t@),
            None => None,
        })),
{
    match text {
        None => {
            proof { lemma_appended_none(out@); }
        },
        Some(t) => {
            let ls = lines_of(t);
            let ghost start = out@;
            let ghost f = if settings {
                |l: Seq<char>| gradle_settings_line(file@, l)
            } else {
                |l: Seq<char>| gradle_build_line(file@, l)
            };
            let mut i: usize = 0;
            proof { lemma_appended_none(out@); }
            while i < ls.len()
                invariant
                    i <= ls@.len(),
                    views(ls@) == lines(t@),
                    f == (if settings {
                        |l: Seq<char>| gradle_settings_line(file@, l)
                    } else {
                        |l: Seq<char>| gradle_build_line(file@, l)
                    }),
                    appended(start, out@, per_line(views(ls@).take(i as int), f)),
                decreases ls@.len() - i,
            {
                let ghost before = out@;
                gradle_one(settings, file, ls[i].as_str(), out);
                proof {
                    assert(views(ls@)[i as int] == ls@[i as int]@);
                    lemma_per_line_step(views(ls@), i as int, f);
                    lemma_appended_chain(start, before, out@, per_line(views(ls@).take(i as int), f), opt_seq(f(ls@[i as int]@)));
                }
                i = i + 1;
            }
            assert(views(ls@).take(i as int) =~= lines(t@));
        },
    }
}

/// The view of an optional text.
pub open spec fn otext(o: Option<&str>) -> Option<Seq<char>> {
    match o {
        Some(t) => Some(t@),
        None => None,
    }
}

/// The Gradle findings: `includeBuild` in `settings.gradle` and
/// `settings.gradle.kts`, then project dependencies and `mavenLocal()`
/// in `build.gradle` and `build.gradle.kts` (each file as read, if it
/// was).
pub fn scan_gradle(
    settings: Option<&str>,
    settings_kts: Option<&str>,
    build: Option<&str>,
    build_kts: Option<&str>,
    out: &mut Vec<Finding>,
)
    ensures
        appended(
            old(out)@,
            final(out)@,
            gradle_file(true, "settings.gradle"@, otext(settings)) + gradle_file(true, "settings.gradle.kts"@, otext(settings_kts))
                + gradle_file(false, "build.gradle"@, otext(build)) + gradle_file(false, "build.gradle.kts"@, otext(build_kts)),
        ),
{
    let ghost s0 = out@;
    gradle_scan_file(true, "settings.gradle", settings, out);
    let ghost s1 = out@;
    gradle_scan_file(true, "settings.gradle.kts", settings_kts, out);
    let ghost s2 = out@;
    gradle_scan_file(false, "build.gradle", build, out);
    let ghost s3 = out@;
    gradle_scan_file(false, "build.gradle.kts", build_kts, out);
    proof {
        let a = gradle_file(true, "settings.gradle"@, otext(settings));
        let b = gradle_file(true, "settings.gradle.kts"@, otext(settings_kts));
        let c = gradle_file(false, "build.gradle"@, otext(build));
        let d = gradle_file(false, "build.gradle.kts"@, otext(build_kts));
        lemma_appended_chain(s0, s1, s2, a, b);
        lemma_appended_chain(s0, s2, s3, a + b, c);
        lemma_appended_chain(s0, s3, out@, a + b + c, d);
    }
}

// ---------------------------------------------------------------------
// Maven.
// ---------------------------------------------------------------------

/// The findings of a `pom.xml` (`text`).
pub open spec fn maven_findings(text: Seq<char>) -> Seq<FindingView> {
    (if contains(text, "<systemPath>"@) {
        seq![declared("maven"@, "system_path"@, "<systemPath> dependency"@, "pom.xml"@)]
    } else {
        Seq::empty()
    }) + (if contains(text, "<scope>system</scope>"@) {
        seq![declared("maven"@, "system_scope"@, "<scope>system</scope> dependency"@, "pom.xml"@)]
    } else {
        Seq::empty()
    })
}

/// System-scoped dependencies and `<systemPath>`s of a `pom.xml`.
pub fn scan_maven(text: &str, out: &mut Vec<Finding>)
    ensures
        appended(old(out)@, final(out)@, maven_findings(text@)),
{
    let ghost s0 = out@;
    if contains_str(text, "<systemPath>") {
        push_declared(out, "maven", "system_path", "<systemPath> dependency".to_string(), "pom.xml");
    } else {
        proof { lemma_appended_none(out@); }
    }
    let ghost s1 = out@;
    if contains_str(text, "<scope>system</scope>") {
        push_declared(out, "maven", "system_scope", "<scope>system</scope> dependency".to_string(), "pom.xml");
    } else {
        proof { lemma_appended_none(out@); }
    }
    proof {
        let a = if contains(text@, "<systemPath>"@) {
            seq![declared("maven"@, "system_path"@, "<systemPath> dependency"@, "pom.xml"@)]
        } else {
            Seq::empty()
        };
        let b = if contains(text@, "<scope>system</scope>"@) {
            seq![declared("maven"@, "system_scope"@, "<scope>system</scope> dependency"@, "pom.xml"@)]
        } else {
            Seq::empty()
        };
        lemma_appended_chain(s0, s1, out@, a, b);
    }
}

// ---------------------------------------------------------------------
// Python requirements files.
// ---------------------------------------------------------------------

/// The finding of one line of the requirements file `file`: an
/// editable install or a local path.
pub open spec fn req_line(file: Seq<char>, raw: Seq<char>) -> Option<FindingView> {
    let line = trim(raw);
    if line.len() == 0 || "#"@.is_prefix_of(line) {
        None
    } else if "-e "@.is_prefix_of(line) || "--editable"@.is_prefix_of(line) || contains(line, "file://"@)
        || "./"@.is_prefix_of(line) || "../"@.is_prefix_of(line) || contains(line, " @ ./"@) || contains(
        line,
        " @ ../"@,
    ) {
        Some(declared("python"@, "editable_install"@, clip(line), file))
    } else {
        None
    }
}

/// The findings of the requirements file `file`, if it was read.
pub open spec fn req_file(file: Seq<char>, text: Option<Seq<char>>) -> Seq<FindingView> {
    match text {
        None => Seq::empty(),
        Some(t) => per_line(lines(t), |l: Seq<char>| req_line(file, l)),
    }
}

fn req_one(file: &str, raw: &str, out: &mut Vec<Finding>)
    ensures
        appended(old(out)@, final(out)@, opt_seq(req_line(file@, raw@))),
{
    let line = trim_str(raw);
    let l = line.as_str();
    if l.unicode_len() == 0 || starts_with(l, "#") {
        proof { lemma_appended_none(out@); }
    } else if starts_with(l, "-e ") || starts_with(l, "--editable") || contains_str(l, "file://") || starts_with(
        l,
        "./",
    ) || starts_with(l, "../") || contains_str(l, " @ ./") || contains_str(l, " @ ../") {
        push_declared(out, "python", "editable_install", clip_str(l), file);
    } else {
        proof { lemma_appended_none(out@); }
    }
}

/// The editable installs and local paths of a requirements file.
pub fn scan_requirements(file: &str, text: Option<&str>, out: &mut Vec<Finding>)
    ensures
        appended(old(out)@, final(out)@, req_file(file@, otext(text))),
{
    match text {
        None => {
            proof { lemma_appended_none(out@); }
        },
        Some(t) => {
            let ls = lines_of(t);
            let ghost start = out@;
            let ghost f = |l: Seq<char>| req_line(file@, l);
            let mut i: usize = 0;
            proof { lemma_appended_none(out@); }
            while i < ls.len()
                invariant
                    i <= ls@.len(),
                    views(ls@) == lines(t@),
                    f == (|l: Seq<char>| req_line(file@, l)),
                    appended(start, out@, per_line(views(ls@).take(i as int), f)),
                decreases ls@.len() - i,
            {
                let ghost before = out@;
                req_one(file, ls[i].as_str(), out);
                proof {
                    assert(views(ls@)[i as int] == ls@[i as int]@);
                    lemma_per_line_step(views(ls@), i as int, f);
                    lemma_appended_chain(start, before, out@, per_line(views(ls@).take(i as int), f), opt_seq(f(ls@[i as int]@)));
                }
                i = i + 1;
            }
            assert(views(ls@).take(i as int) =~= lines(t@));
        },
    }
}

// ---------------------------------------------------------------------
// Hand-edited vendored trees.
// ---------------------------------------------------------------------

/// The directories that hold vendored trees.
pub open spec fn vendor_prefixes() -> Seq<Seq<char>> {
    seq!["vendor/"@, "third_party/"@, "third-party/"@, "Godeps/"@, "vendored/"@, ".yarn/patches/"@]
}

/// Whether the changed path `p` lies under `prefix` (git quotes some
/// paths, so a leading quote is allowed).
pub open spec fn under(prefix: Seq<char>, p: Seq<char>) -> bool {
    prefix.is_prefix_of(p) || ("\""@ + prefix).is_prefix_of(p)
}

/// The changed paths under `prefix`, in order.
pub open spec fn hits(changed: Seq<Seq<char>>, prefix: Seq<char>) -> Seq<Seq<char>>
    decreases changed.len(),
{
    if changed.len() == 0 {
        Seq::empty()
    } else {
        let rest = hits(changed.drop_last(), prefix);
        if under(prefix, changed.last()) {
            rest.push(changed.last())
        } else {
            rest
        }
    }
}

/// The finding for `prefix`: how many changed paths lie under it, the
/// first five of them, and how many more there are.
pub open spec fn vendor_finding(changed: Seq<Seq<char>>, prefix: Seq<char>) -> Option<FindingView> {
    let h = hits(changed, prefix);
    if h.len() == 0 {
        None
    } else {
        let n = if h.len() < 5 { h.len() } else { 5 };
        let more = h.len() - n;
        let head = decimal(h.len()) + " edited under "@ + prefix + ": "@ + join(h.take(n as int), ", "@);
        Some(FindingView {
            ecosystem: "vendor"@,
            category: "vendored_edit"@,
            kind: "dirty_vendor"@,
            detail: if more > 0 { head + " (+"@ + decimal(more as nat) + " more)"@ } else { head },
            file: prefix,
        })
    }
}

/// The findings of all vendored directories, in their order.
pub open spec fn vendor_findings(changed: Seq<Seq<char>>, prefixes: Seq<Seq<char>>) -> Seq<FindingView>
    decreases prefixes.len(),
{
    if prefixes.len() == 0 {
        Seq::empty()
    } else {
        vendor_findings(changed, prefixes.drop_last()) + opt_seq(vendor_finding(changed, prefixes.last()))
    }
}

fn vendor_prefix_list() -> (v: Vec<String>)
    ensures
        views(v@) == vendor_prefixes(),
{
    let mut v: Vec<String> = Vec::new();
    v.push("vendor/".to_string());
    v.push("third_party/".to_string());
    v.push("third-party/".to_string());
    v.push("Godeps/".to_string());
    v.push("vendored/".to_string());
    v.push(".yarn/patches/".to_string());
    assert(views(v@) =~= vendor_prefixes());
    v
}

fn vendor_one(changed: &Vec<String>, prefix: &str, out: &mut Vec<Finding>)
    ensures
        appended(old(out)@, final(out)@, opt_seq(vendor_finding(views(changed@), prefix@))),
{
    let quoted = concat("\"", prefix);
    let mut h: Vec<String> = Vec::new();
    let mut i: usize = 0;
    while i < changed.len()
        invariant
            i <= changed@.len(),
            quoted@ == "\""@ + prefix@,
            views(h@) == hits(views(changed@).take(i as int), prefix@),
        decreases changed@.len() - i,
    {
        assert(views(changed@).take(i + 1).drop_last() =~= views(changed@).take(i as int));
        assert(views(changed@).take(i + 1).last() == changed@[i as int]@);
        let p = changed[i].as_str();
        if starts_with(p, prefix) || starts_with(p, quoted.as_str()) {
            let ghost before = views(h@);
            h.push(changed[i].clone());
            assert(views(h@) =~= before.push(changed@[i as int]@));
        }
        i = i + 1;
    }
    assert(views(changed@).take(i as int) =~= views(changed@));
    if h.len() == 0 {
        proof { lemma_appended_none(out@); }
        return;
    }
    let n: usize = if h.len() < 5 { h.len() } else { 5 };
    let mut sample: Vec<String> = Vec::new();
    let mut k: usize = 0;
    while k < n
        invariant
            k <= n <= h@.len(),
            views(sample@) == views(h@).take(k as int),
        decreases n - k,
    {
        let ghost before = views(sample@);
        sample.push(h[k].clone());
        assert(views(sample@) =~= before.push(h@[k as int]@));
        assert(views(h@).take(k + 1) =~= views(h@).take(k as int).push(h@[k as int]@));
        k = k + 1;
    }
    let more: usize = h.len() - n;
    let a = concat(u64_to_string(h.len() as u64).as_str(), " edited under ");
    let b = concat(a.as_str(), prefix);
    let c = concat(b.as_str(), ": ");
    let head = concat(c.as_str(), join_strings(&sample, ", ").as_str());
    let detail = if more > 0 {
        let d = concat(head.as_str(), " (+");
        let e = concat(d.as_str(), u64_to_string(more as u64).as_str());
        concat(e.as_str(), " more)")
    } else {
        head
    };
    let ghost before = out@;
    out.push(
        Finding {
            ecosystem: "vendor".to_string(),
            category: "vendored_edit".to_string(),
            kind: "dirty_vendor".to_string(),
            detail,
            file: prefix.to_string(),
        },
    );
    proof {
        let fvw = vendor_finding(views(changed@), prefix@);
        assert(fvw is Some);
        assert(finding_views(out@) =~= finding_views(before) + seq![fvw->0]);
    }
}

/// The vendored directories (`vendor/`, `third_party/`, `third-party/`,
/// `Godeps/`, `vendored/`, `.yarn/patches/`) under which the working
/// tree has changed paths (`changed`, as git lists them).
pub fn scan_vendored_edits(changed: &Vec<String>, out: &mut Vec<Finding>)
    ensures
        appended(old(out)@, final(out)@, vendor_findings(views(changed@), vendor_prefixes())),
{
    let prefixes = vendor_prefix_list();
    let ghost start = out@;
    let mut i: usize = 0;
    proof { lemma_appended_none(out@); }
    while i < prefixes.len()
        invariant
            i <= prefixes@.len(),
            views(prefixes@) == vendor_prefixes(),
            appended(start, out@, vendor_findings(views(changed@), views(prefixes@).take(i as int))),
        decreases prefixes@.len() - i,
    {
        let ghost before = out@;
        vendor_one(changed, prefixes[i].as_str(), out);
        proof {
            assert(views(prefixes@).take(i + 1).drop_last() =~= views(prefixes@).take(i as int));
            assert(views(prefixes@).take(i + 1).last() == prefixes@[i as int]@);
            lemma_appended_chain(
                start,
                before,
                out@,
                vendor_findings(views(changed@), views(prefixes@).take(i as int)),
                opt_seq(vendor_finding(views(changed@), prefixes@[i as int]@)),
            );
        }
        i = i + 1;
    }
    assert(views(prefixes@).take(i as int) =~= vendor_prefixes());
}

// ---------------------------------------------------------------------
// Document helpers.
// ---------------------------------------------------------------------

/// The entries of an optional value, when it is a table.
pub open spec fn table_of(o: Option<DocValue>) -> Option<Seq<(String, DocValue)>> {
    match o {
        Some(DocValue::Table(e)) => Some(e@),
        _ => None,
    }
}

/// One finding per key of a table, the key followed by `suffix`.
pub open spec fn key_findings(
    es: Seq<(String, DocValue)>,
    eco: Seq<char>,
    kind: Seq<char>,
    suffix: Seq<char>,
    file: Seq<char>,
) -> Seq<FindingView> {
    es.map_values(|e: (String, DocValue)| declared(eco, kind, e.0@ + suffix, file))
}

fn push_keys(es: &Vec<(String, DocValue)>, eco: &str, kind: &str, suffix: &str, file: &str, out: &mut Vec<Finding>)
    ensures
        appended(old(out)@, final(out)@, key_findings(es@, eco@, kind@, suffix@, file@)),
{
    let ghost start = out@;
    let mut i: usize = 0;
    proof { lemma_appended_none(out@); }
    while i < es.len()
        invariant
            i <= es@.len(),
            appended(start, out@, key_findings(es@.take(i as int), eco@, kind@, suffix@, file@)),
        decreases es@.len() - i,
    {
        let ghost before = out@;
        push_declared(out, eco, kind, concat(es[i].0.as_str(), suffix), file);
        proof {
            let x = declared(eco@, kind@, es@[i as int].0@ + suffix@, file@);
            lemma_appended_chain(start, before, out@, key_findings(es@.take(i as int), eco@, kind@, suffix@, file@), seq![x]);
            assert(key_findings(es@.take(i + 1), eco@, kind@, suffix@, file@) =~= key_findings(
                es@.take(i as int),
                eco@,
                kind@,
                suffix@,
                file@,
            ) + seq![x]);
        }
        i = i + 1;
    }
    assert(es@.take(i as int) =~= es@);
}

// ---------------------------------------------------------------------
// Cargo.
// ---------------------------------------------------------------------

/// The `[patch.<registry>]` findings: each crate of each registry.
pub open spec fn cargo_patch(regs: Seq<(String, DocValue)>) -> Seq<FindingView>
    decreases regs.len(),
{
    if regs.len() == 0 {
        Seq::empty()
    } else {
        cargo_patch(regs.drop_last()) + match regs.last().1 {
            DocValue::Table(ct) => key_findings(ct@, "cargo"@, "patch_table"@, " (via [patch."@ + regs.last().0@ + "])"@, "Cargo.toml"@),
            _ => Seq::empty(),
        }
    }
}

/// A `path` value as it is reported: the string, or `?`.
pub open spec fn path_text(p: DocValue) -> Seq<char> {
    match p {
        DocValue::Str(s) => s@,
        _ => "?"@,
    }
}

/// The path dependencies of one dependency table of kind `kind`.
pub open spec fn path_deps(deps: Seq<(String, DocValue)>, kind: Seq<char>) -> Seq<FindingView>
    decreases deps.len(),
{
    if deps.len() == 0 {
        Seq::empty()
    } else {
        let rest = path_deps(deps.drop_last(), kind);
        match get_spec(deps.last().1, "path"@) {
            Some(p) => rest.push(
                declared("cargo"@, "path_dep"@, deps.last().0@ + " -> "@ + path_text(p) + " (in ["@ + kind + "])"@, "Cargo.toml"@),
            ),
            None => rest,
        }
    }
}

/// The path dependencies of the dependency table `kind` of `node`.
pub open spec fn dep_kind(node: DocValue, kind: Seq<char>) -> Seq<FindingView> {
    match table_of(get_spec(node, kind)) {
        Some(d) => path_deps(d, kind),
        None => Seq::empty(),
    }
}

/// The path dependencies of the normal, dev and build dependency tables
/// of `node`.
pub open spec fn dep_tables(node: DocValue) -> Seq<FindingView> {
    dep_kind(node, "dependencies"@) + dep_kind(node, "dev-dependencies"@) + dep_kind(node, "build-dependencies"@)
}

/// The path dependencies of each `[target.<cfg>]` table.
pub open spec fn target_deps(ts: Seq<(String, DocValue)>) -> Seq<FindingView>
    decreases ts.len(),
{
    if ts.len() == 0 {
        Seq::empty()
    } else {
        target_deps(ts.drop_last()) + dep_tables(ts.last().1)
    }
}

/// The findings of a parsed `Cargo.toml`: `[patch]` crates, `[replace]`
/// specs, then path dependencies of the package, of `[workspace]` and
/// of each `[target.<cfg>]`.
pub open spec fn cargo_findings(doc: DocValue) -> Seq<FindingView> {
    (match table_of(get_spec(doc, "patch"@)) {
        Some(r) => cargo_patch(r),
        None => Seq::empty(),
    }) + (match table_of(get_spec(doc, "replace"@)) {
        Some(r) => key_findings(r, "cargo"@, "replace_table"@, " (via [replace])"@, "Cargo.toml"@),
        None => Seq::empty(),
    }) + dep_tables(doc) + (match get_spec(doc, "workspace"@) {
        Some(w) => dep_tables(w),
        None => Seq::empty(),
    }) + (match table_of(get_spec(doc, "target"@)) {
        Some(t) => target_deps(t),
        None => Seq::empty(),
    })
}

fn cargo_patch_scan(regs: &Vec<(String, DocValue)>, out: &mut Vec<Finding>)
    ensures
        appended(old(out)@, final(out)@, cargo_patch(regs@)),
{
    let ghost start = out@;
    let mut i: usize = 0;
    proof { lemma_appended_none(out@); }
    while i < regs.len()
        invariant
            i <= regs@.len(),
            appended(start, out@, cargo_patch(regs@.take(i as int))),
        decreases regs@.len() - i,
    {
        let ghost before = out@;
        assert(regs@.take(i + 1).drop_last() =~= regs@.take(i as int));
        assert(regs@.take(i + 1).last() == regs@[i as int]);
        match &regs[i].1 {
            DocValue::Table(ct) => {
                let a = concat(" (via [patch.", regs[i].0.as_str());
                let suffix = concat(a.as_str(), "])");
                push_keys(ct, "cargo", "patch_table", suffix.as_str(), "Cargo.toml", out);
            },
            _ => {
                proof { lemma_appended_none(out@); }
            },
        }
        proof {
            let add = match regs@[i as int].1 {
                DocValue::Table(ct) => key_findings(ct@, "cargo"@, "patch_table"@, " (via [patch."@ + regs@[i as int].0@ + "])"@, "Cargo.toml"@),
                _ => Seq::empty(),
            };
            lemma_appended_chain(start, before, out@, cargo_patch(regs@.take(i as int)), add);
        }
        i = i + 1;
    }
    assert(regs@.take(i as int) =~= regs@);
}

fn path_deps_scan(deps: &Vec<(String, DocValue)>, kind: &str, out: &mut Vec<Finding>)
    ensures
        appended(old(out)@, final(out)@, path_deps(deps@, kind@)),
{
    let ghost start = out@;
    let mut i: usize = 0;
    proof { lemma_appended_none(out@); }
    while i < deps.len()
        invariant
            i <= deps@.len(),
            appended(start, out@, path_deps(deps@.take(i as int), kind@)),
        decreases deps@.len() - i,
    {
        let ghost before = out@;
        assert(deps@.take(i + 1).drop_last() =~= deps@.take(i as int));
        assert(deps@.take(i + 1).last() == deps@[i as int]);
        match deps[i].1.get("path") {
            Some(p) => {
                let pt = match p.as_str() {
                    Some(x) => x.to_string(),
                    None => "?".to_string(),
                };
                let a = concat(deps[i].0.as_str(), " -> ");
                let b = concat(a.as_str(), pt.as_str());
                let c = concat(b.as_str(), " (in [");
                let d = concat(c.as_str(), kind);
                let detail = concat(d.as_str(), "])");
                push_declared(out, "cargo", "path_dep", detail, "Cargo.toml");
                proof {
                    let x = declared("cargo"@, "path_dep"@, deps@[i as int].0@ + " -> "@ + path_text(*p) + " (in ["@ + kind@ + "])"@, "Cargo.toml"@);
                    lemma_appended_chain(start, before, out@, path_deps(deps@.take(i as int), kind@), seq![x]);
                    assert(path_deps(deps@.take(i as int), kind@).push(x) =~= path_deps(deps@.take(i as int), kind@) + seq![x]);
                }
            },
            None => {},
        }
        i = i + 1;
    }
    assert(deps@.take(i as int) =~= deps@);
}

fn dep_kind_scan(node: &DocValue, kind: &str, out: &mut Vec<Finding>)
    ensures
        appended(old(out)@, final(out)@, dep_kind(*node, kind@)),
{
    match node.get(kind) {
        Some(DocValue::Table(d)) => path_deps_scan(d, kind, out),
        _ => {
            proof { lemma_appended_none(out@); }
        },
    }
}

fn dep_tables_scan(node: &DocValue, out: &mut Vec<Finding>)
    ensures
        appended(old(out)@, final(out)@, dep_tables(*node)),
{
    let ghost s0 = out@;
    dep_kind_scan(node, "dependencies", out);
    let ghost s1 = out@;
    dep_kind_scan(node, "dev-dependencies", out);
    let ghost s2 = out@;
    dep_kind_scan(node, "build-dependencies", out);
    proof {
        let a = dep_kind(*node, "dependencies"@);
        let b = dep_kind(*node, "dev-dependencies"@);
        let c = dep_kind(*node, "build-dependencies"@);
        lemma_appended_chain(s0, s1, s2, a, b);
        lemma_appended_chain(s0, s2, out@, a + b, c);
    }
}

fn target_scan(ts: &Vec<(String, DocValue)>, out: &mut Vec<Finding>)
    ensures
        appended(old(out)@, final(out)@, target_deps(ts@)),
{
    let ghost start = out@;
    let mut i: usize = 0;
    proof { lemma_appended_none(out@); }
    while i < ts.len()
        invariant
            i <= ts@.len(),
            appended(start, out@, target_deps(ts@.take(i as int))),
        decreases ts@.len() - i,
    {
        let ghost before = out@;
        assert(ts@.take(i + 1).drop_last() =~= ts@.take(i as int));
        assert(ts@.take(i + 1).last() == ts@[i as int]);
        dep_tables_scan(&ts[i].1, out);
        proof {
            lemma_appended_chain(start, before, out@, target_deps(ts@.take(i as int)), dep_tables(ts@[i as int].1));
        }
        i = i + 1;
    }
    assert(ts@.take(i as int) =~= ts@);
}

/// The local overrides declared by a parsed `Cargo.toml`.
pub fn scan_cargo(doc: &DocValue, out: &mut Vec<Finding>)
    ensures
        appended(old(out)@, final(out)@, cargo_findings(*doc)),
{
    let ghost s0 = out@;
    match doc.get("patch") {
        Some(DocValue::Table(r)) => cargo_patch_scan(r, out),
        _ => {
            proof { lemma_appended_none(out@); }
        },
    }
    let ghost s1 = out@;
    match doc.get("replace") {
        Some(DocValue::Table(r)) => push_keys(r, "cargo", "replace_table", " (via [replace])", "Cargo.toml", out),
        _ => {
            proof { lemma_appended_none(out@); }
        },
    }
    let ghost s2 = out@;
    dep_tables_scan(doc, out);
    let ghost s3 = out@;
    match doc.get("workspace") {
        Some(w) => dep_tables_scan(w, out),
        None => {
            proof { lemma_appended_none(out@); }
        },
    }
    let ghost s4 = out@;
    match doc.get("target") {
        Some(DocValue::Table(t)) => target_scan(t, out),
        _ => {
            proof { lemma_appended_none(out@); }
        },
    }
    proof {
        let a = match table_of(get_spec(*doc, "patch"@)) {
            Some(r) => cargo_patch(r),
            None => Seq::empty(),
        };
        let b = match table_of(get_spec(*doc, "replace"@)) {
            Some(r) => key_findings(r, "cargo"@, "replace_table"@, " (via [replace])"@, "Cargo.toml"@),
            None => Seq::empty(),
        };
        let c = dep_tables(*doc);
        let d = match get_spec(*doc, "workspace"@) {
            Some(w) => dep_tables(w),
            None => Seq::empty(),
        };
        let e = match table_of(get_spec(*doc, "target"@)) {
            Some(t) => target_deps(t),
            None => Seq::empty(),
        };
        lemma_appended_chain(s0, s1, s2, a, b);
        lemma_appended_chain(s0, s2, s3, a + b, c);
        lemma_appended_chain(s0, s3, s4, a + b + c, d);
        lemma_appended_chain(s0, s4, out@, a + b + c + d, e);
    }
}

// ---------------------------------------------------------------------
// npm.
// ---------------------------------------------------------------------

/// A dependency specifier that points at the local filesystem.
pub open spec fn local_spec(s: Seq<char>) -> bool {
    "file:"@.is_prefix_of(s) || "link:"@.is_prefix_of(s) || "portal:"@.is_prefix_of(s)
}

/// A specifier's text: the string, or nothing.
pub open spec fn spec_text(v: DocValue) -> Seq<char> {
    match v {
        DocValue::Str(s) => s@,
        _ => Seq::empty(),
    }
}

/// The local specifiers of one dependency object.
pub open spec fn npm_locals(deps: Seq<(String, DocValue)>, field: Seq<char>) -> Seq<FindingView>
    decreases deps.len(),
{
    if deps.len() == 0 {
        Seq::empty()
    } else {
        let rest = npm_locals(deps.drop_last(), field);
        let sp = spec_text(deps.last().1);
        if local_spec(sp) {
            rest.push(declared("npm"@, "local_specifier"@, deps.last().0@ + " -> "@ + sp + " (in "@ + field + ")"@, "package.json"@))
        } else {
            rest
        }
    }
}

/// The local specifiers of the dependency object `field`.
pub open spec fn npm_field(doc: DocValue, field: Seq<char>) -> Seq<FindingView> {
    match table_of(get_spec(doc, field)) {
        Some(d) => npm_locals(d, field),
        None => Seq::empty(),
    }
}

/// One finding per key of the object `field` of `node`.
pub open spec fn keys_of(node: DocValue, field: Seq<char>, eco: Seq<char>, kind: Seq<char>, suffix: Seq<char>, file: Seq<char>) -> Seq<FindingView> {
    match table_of(get_spec(node, field)) {
        Some(d) => key_findings(d, eco, kind, suffix, file),
        None => Seq::empty(),
    }
}

/// The pnpm overrides and patched dependencies.
pub open spec fn pnpm_findings(doc: DocValue) -> Seq<FindingView> {
    match get_spec(doc, "pnpm"@) {
        Some(p) => keys_of(p, "overrides"@, "npm"@, "overrides"@, " (in pnpm.overrides)"@, "package.json"@) + keys_of(
            p,
            "patchedDependencies"@,
            "npm"@,
            "patch_package"@,
            " (pnpm.patchedDependencies)"@,
            "package.json"@,
        ),
        None => Seq::empty(),
    }
}

/// The finding of a file in `patches/` (patch-package), if it is a
/// `.patch` file.
pub open spec fn patch_file(n: Seq<char>) -> Option<FindingView> {
    if is_suffix(".patch"@, n) {
        Some(declared("npm"@, "patch_package"@, "patches/"@ + n, "patches/"@))
    } else {
        None
    }
}

/// The findings of a parsed `package.json` and of the names of the files
/// in `patches/`.
pub open spec fn npm_findings(doc: DocValue, patch_files: Seq<Seq<char>>) -> Seq<FindingView> {
    npm_field(doc, "dependencies"@) + npm_field(doc, "devDependencies"@) + npm_field(doc, "optionalDependencies"@)
        + npm_field(doc, "peerDependencies"@) + keys_of(
        doc,
        "resolutions"@,
        "npm"@,
        "resolutions"@,
        " (in \"resolutions\")"@,
        "package.json"@,
    ) + keys_of(doc, "overrides"@, "npm"@, "overrides"@, " (in \"overrides\")"@, "package.json"@) + pnpm_findings(doc)
        + per_line(patch_files, |n: Seq<char>| patch_file(n))
}

fn npm_field_scan(doc: &DocValue, field: &str, out: &mut Vec<Finding>)
    ensures
        appended(old(out)@, final(out)@, npm_field(*doc, field@)),
{
    match doc.get(field) {
        Some(DocValue::Table(deps)) => {
            let ghost start = out@;
            let mut i: usize = 0;
            proof { lemma_appended_none(out@); }
            while i < deps.len()
                invariant
                    i <= deps@.len(),
                    appended(start, out@, npm_locals(deps@.take(i as int), field@)),
                decreases deps@.len() - i,
            {
                let ghost before = out@;
                assert(deps@.take(i + 1).drop_last() =~= deps@.take(i as int));
                assert(deps@.take(i + 1).last() == deps@[i as int]);
                let sp = match deps[i].1.as_str() {
                    Some(x) => x.to_string(),
                    None => String::new(),
                };
                proof {
                    reveal_strlit("");
                }
                assert(sp@ == spec_text(deps@[i as int].1));
                if starts_with(sp.as_str(), "file:") || starts_with(sp.as_str(), "link:") || starts_with(sp.as_str(), "portal:") {
                    let a = concat(deps[i].0.as_str(), " -> ");
                    let b = concat(a.as_str(), sp.as_str());
                    let c = concat(b.as_str(), " (in ");
                    let d = concat(c.as_str(), field);
                    let detail = concat(d.as_str(), ")");
                    push_declared(out, "npm", "local_specifier", detail, "package.json");
                    proof {
                        let x = declared("npm"@, "local_specifier"@, deps@[i as int].0@ + " -> "@ + sp@ + " (in "@ + field@ + ")"@, "package.json"@);
                        lemma_appended_chain(start, before, out@, npm_locals(deps@.take(i as int), field@), seq![x]);
                        assert(npm_locals(deps@.take(i as int), field@).push(x) =~= npm_locals(deps@.take(i as int), field@) + seq![x]);
                    }
                }
                i = i + 1;
            }
            assert(deps@.take(i as int) =~= deps@);
        },
        _ => {
            proof { lemma_appended_none(out@); }
        },
    }
}

fn keys_scan(node: &DocValue, field: &str, eco: &str, kind: &str, suffix: &str, file: &str, out: &mut Vec<Finding>)
    ensures
        appended(old(out)@, final(out)@, keys_of(*node, field@, eco@, kind@, suffix@, file@)),
{
    match node.get(field) {
        Some(DocValue::Table(d)) => push_keys(d, eco, kind, suffix, file, out),
        _ => {
            proof { lemma_appended_none(out@); }
        },
    }
}

/// The local specifiers, resolutions, overrides and patch-package
/// patches of a parsed `package.json`; `patch_files` names the files of
/// the repo's `patches/` directory, in the order they were listed.
pub fn scan_npm(doc: &DocValue, patch_files: &Vec<String>, out: &mut Vec<Finding>)
    ensures
        appended(old(out)@, final(out)@, npm_findings(*doc, views(patch_files@))),
{
    let ghost s0 = out@;
    npm_field_scan(doc, "dependencies", out);
    let ghost s1 = out@;
    npm_field_scan(doc, "devDependencies", out);
    let ghost s2 = out@;
    npm_field_scan(doc, "optionalDependencies", out);
    let ghost s3 = out@;
    npm_field_scan(doc, "peerDependencies", out);
    let ghost s4 = out@;
    keys_scan(doc, "resolutions", "npm", "resolutions", " (in \"resolutions\")", "package.json", out);
    let ghost s5 = out@;
    keys_scan(doc, "overrides", "npm", "overrides", " (in \"overrides\")", "package.json", out);
    let ghost s6 = out@;
    match doc.get("pnpm") {
        Some(p) => {
            keys_scan(p, "overrides", "npm", "overrides", " (in pnpm.overrides)", "package.json", out);
            let ghost s6b = out@;
            keys_scan(p, "patchedDependencies", "npm", "patch_package", " (pnpm.patchedDependencies)", "package.json", out);
            proof {
                lemma_appended_chain(
                    s6,
                    s6b,
                    out@,
                    keys_of(*p, "overrides"@, "npm"@, "overrides"@, " (in pnpm.overrides)"@, "package.json"@),
                    keys_of(*p, "patchedDependencies"@, "npm"@, "patch_package"@, " (pnpm.patchedDependencies)"@, "package.json"@),
                );
            }
        },
        None => {
            proof { lemma_appended_none(out@); }
        },
    }
    let ghost s7 = out@;
    let ghost f = |n: Seq<char>| patch_file(n);
    let mut i: usize = 0;
    proof { lemma_appended_none(out@); }
    while i < patch_files.len()
        invariant
            i <= patch_files@.len(),
            f == (|n: Seq<char>| patch_file(n)),
            appended(s7, out@, per_line(views(patch_files@).take(i as int), f)),
        decreases patch_files@.len() - i,
    {
        let ghost before = out@;
        let n = patch_files[i].as_str();
        if ends_with(n, ".patch") {
            push_declared(out, "npm", "patch_package", concat("patches/", n), "patches/");
        } else {
            proof { lemma_appended_none(out@); }
        }
        proof {
            assert(views(patch_files@)[i as int] == patch_files@[i as int]@);
            lemma_per_line_step(views(patch_files@), i as int, f);
            lemma_appended_chain(s7, before, out@, per_line(views(patch_files@).take(i as int), f), opt_seq(f(patch_files@[i as int]@)));
        }
        i = i + 1;
    }
    proof {
        assert(views(patch_files@).take(i as int) =~= views(patch_files@));
        let a = npm_field(*doc, "dependencies"@);
        let b = npm_field(*doc, "devDependencies"@);
        let c = npm_field(*doc, "optionalDependencies"@);
        let d = npm_field(*doc, "peerDependencies"@);
        let e = keys_of(*doc, "resolutions"@, "npm"@, "resolutions"@, " (in \"resolutions\")"@, "package.json"@);
        let g = keys_of(*doc, "overrides"@, "npm"@, "overrides"@, " (in \"overrides\")"@, "package.json"@);
        let h = pnpm_findings(*doc);
        let k = per_line(views(patch_files@), f);
        lemma_appended_chain(s0, s1, s2, a, b);
        lemma_appended_chain(s0, s2, s3, a + b, c);
        lemma_appended_chain(s0, s3, s4, a + b + c, d);
        lemma_appended_chain(s0, s4, s5, a + b + c + d, e);
        lemma_appended_chain(s0, s5, s6, a + b + c + d + e, g);
        lemma_appended_chain(s0, s6, s7, a + b + c + d + e + g, h);
        lemma_appended_chain(s0, s7, out@, a + b + c + d + e + g + h, k);
    }
}

// ---------------------------------------------------------------------
// Composer.
// ---------------------------------------------------------------------

/// The finding of one Composer repository entry, if it is of type
/// `path`.
pub open spec fn composer_repo(r: DocValue) -> Option<FindingView> {
    match get_spec(r, "type"@) {
        Some(DocValue::Str(t)) => if t@ == "path"@ {
            let url = match get_spec(r, "url"@) {
                Some(DocValue::Str(u)) => u@,
                _ => "?"@,
            };
            Some(declared("composer"@, "path_repository"@, "path repository -> "@ + url, "composer.json"@))
        } else {
            None
        },
        _ => None,
    }
}

/// The findings of a list of repository entries.
pub open spec fn composer_items(rs: Seq<DocValue>) -> Seq<FindingView>
    decreases rs.len(),
{
    if rs.len() == 0 {
        Seq::empty()
    } else {
        composer_items(rs.drop_last()) + opt_seq(composer_repo(rs.last()))
    }
}

/// The repository entries of `repositories`: the items of an array, or
/// the values of an object.
pub open spec fn composer_entries(doc: DocValue) -> Seq<DocValue> {
    match get_spec(doc, "repositories"@) {
        Some(DocValue::Array(a)) => a@,
        Some(DocValue::Table(o)) => o@.map_values(|e: (String, DocValue)| e.1),
        _ => Seq::empty(),
    }
}

fn composer_one(r: &DocValue, out: &mut Vec<Finding>)
    ensures
        appended(old(out)@, final(out)@, opt_seq(composer_repo(*r))),
{
    proof {
        reveal_strlit("path");
    }
    match r.get("type") {
        Some(DocValue::Str(t)) => {
            if eq_str(t.as_str(), "path") {
                let url = match r.get("url") {
                    Some(DocValue::Str(u)) => u.clone(),
                    _ => "?".to_string(),
                };
                push_declared(out, "composer", "path_repository", concat("path repository -> ", url.as_str()), "composer.json");
            } else {
                proof { lemma_appended_none(out@); }
            }
        },
        _ => {
            proof { lemma_appended_none(out@); }
        },
    }
}

/// The `path` repositories of a parsed `composer.json`.
pub fn scan_composer(doc: &DocValue, out: &mut Vec<Finding>)
    ensures
        appended(old(out)@, final(out)@, composer_items(composer_entries(*doc))),
{
    let ghost start = out@;
    proof { lemma_appended_none(out@); }
    match doc.get("repositories") {
        Some(DocValue::Array(a)) => {
            let mut i: usize = 0;
            while i < a.len()
                invariant
                    i <= a@.len(),
                    appended(start, out@, composer_items(a@.take(i as int))),
                decreases a@.len() - i,
            {
                let ghost before = out@;
                composer_one(&a[i], out);
                proof {
                    assert(a@.take(i + 1).drop_last() =~= a@.take(i as int));
                    assert(a@.take(i + 1).last() == a@[i as int]);
                    lemma_appended_chain(start, before, out@, composer_items(a@.take(i as int)), opt_seq(composer_repo(a@[i as int])));
                }
                i = i + 1;
            }
            assert(a@.take(i as int) =~= a@);
        },
        Some(DocValue::Table(o)) => {
            let ghost vals = o@.map_values(|e: (String, DocValue)| e.1);
            let mut i: usize = 0;
            while i < o.len()
                invariant
                    i <= o@.len(),
                    vals == o@.map_values(|e: (String, DocValue)| e.1),
                    appended(start, out@, composer_items(vals.take(i as int))),
                decreases o@.len() - i,
            {
                let ghost before = out@;
                composer_one(&o[i].1, out);
                proof {
                    assert(vals.take(i + 1).drop_last() =~= vals.take(i as int));
                    assert(vals.take(i + 1).last() == o@[i as int].1);
                    lemma_appended_chain(start, before, out@, composer_items(vals.take(i as int)), opt_seq(composer_repo(o@[i as int].1)));
                }
                i = i + 1;
            }
            assert(vals.take(i as int) =~= vals);
        },
        _ => {},
    }
}

// ---------------------------------------------------------------------
// Python projects.
// ---------------------------------------------------------------------

/// The poetry path and develop dependencies of one dependency table
/// `key`.
pub open spec fn poetry_deps(deps: Seq<(String, DocValue)>, key: Seq<char>) -> Seq<FindingView>
    decreases deps.len(),
{
    if deps.len() == 0 {
        Seq::empty()
    } else {
        let rest = poetry_deps(deps.drop_last(), key);
        let sp = deps.last().1;
        if sp is Table && (get_spec(sp, "path"@) is Some || get_spec(sp, "develop"@) == Some(DocValue::Bool(true))) {
            rest.push(declared("python"@, "path_dep"@, deps.last().0@ + " (poetry "@ + key + ")"@, "pyproject.toml"@))
        } else {
            rest
        }
    }
}

/// The poetry findings of the table `key` of `[tool.poetry]` (`pv`).
pub open spec fn poetry_key(pv: DocValue, key: Seq<char>) -> Seq<FindingView> {
    match table_of(get_spec(pv, key)) {
        Some(d) => poetry_deps(d, key),
        None => Seq::empty(),
    }
}

/// The `[tool.uv.sources]` entries with a path or a workspace member.
pub open spec fn uv_sources(src: Seq<(String, DocValue)>) -> Seq<FindingView>
    decreases src.len(),
{
    if src.len() == 0 {
        Seq::empty()
    } else {
        let rest = uv_sources(src.drop_last());
        let sp = src.last().1;
        if sp is Table && (get_spec(sp, "path"@) is Some || get_spec(sp, "workspace"@) is Some) {
            rest.push(declared("python"@, "path_dep"@, src.last().0@ + " (tool.uv.sources)"@, "pyproject.toml"@))
        } else {
            rest
        }
    }
}

/// The findings of a parsed `pyproject.toml`: poetry dependencies and
/// dev-dependencies, then uv sources.
pub open spec fn pyproject_findings(doc: DocValue) -> Seq<FindingView> {
    match get_spec(doc, "tool"@) {
        None => Seq::empty(),
        Some(t) => (match get_spec(t, "poetry"@) {
            Some(pv) => if pv is Table {
                poetry_key(pv, "dependencies"@) + poetry_key(pv, "dev-dependencies"@)
            } else {
                Seq::empty()
            },
            None => Seq::empty(),
        }) + (match get_spec(t, "uv"@) {
            Some(u) => match table_of(get_spec(u, "sources"@)) {
                Some(src) => uv_sources(src),
                None => Seq::empty(),
            },
            None => Seq::empty(),
        }),
    }
}

fn poetry_key_scan(pv: &DocValue, key: &str, out: &mut Vec<Finding>)
    ensures
        appended(old(out)@, final(out)@, poetry_key(*pv, key@)),
{
    match pv.get(key) {
        Some(DocValue::Table(deps)) => {
            let ghost start = out@;
            let mut i: usize = 0;
            proof { lemma_appended_none(out@); }
            while i < deps.len()
                invariant
                    i <= deps@.len(),
                    appended(start, out@, poetry_deps(deps@.take(i as int), key@)),
                decreases deps@.len() - i,
            {
                let ghost before = out@;
                assert(deps@.take(i + 1).drop_last() =~= deps@.take(i as int));
                assert(deps@.take(i + 1).last() == deps@[i as int]);
                let sp = &deps[i].1;
                let hit = match sp {
                    DocValue::Table(_) => {
                        let has_path = sp.get("path").is_some();
                        let develop = match sp.get("develop") {
                            Some(d) => d.as_bool(),
                            None => None,
                        };
                        has_path || develop == Some(true)
                    },
                    _ => false,
                };
                if hit {
                    let a = concat(deps[i].0.as_str(), " (poetry ");
                    let b = concat(a.as_str(), key);
                    push_declared(out, "python", "path_dep", concat(b.as_str(), ")"), "pyproject.toml");
                    proof {
                        let x = declared("python"@, "path_dep"@, deps@[i as int].0@ + " (poetry "@ + key@ + ")"@, "pyproject.toml"@);
                        lemma_appended_chain(start, before, out@, poetry_deps(deps@.take(i as int), key@), seq![x]);
                        assert(poetry_deps(deps@.take(i as int), key@).push(x) =~= poetry_deps(deps@.take(i as int), key@) + seq![x]);
                    }
                }
                i = i + 1;
            }
            assert(deps@.take(i as int) =~= deps@);
        },
        _ => {
            proof { lemma_appended_none(out@); }
        },
    }
}

fn uv_scan(src: &Vec<(String, DocValue)>, out: &mut Vec<Finding>)
    ensures
        appended(old(out)@, final(out)@, uv_sources(src@)),
{
    let ghost start = out@;
    let mut i: usize = 0;
    proof { lemma_appended_none(out@); }
    while i < src.len()
        invariant
            i <= src@.len(),
            appended(start, out@, uv_sources(src@.take(i as int))),
        decreases src@.len() - i,
    {
        let ghost before = out@;
        assert(src@.take(i + 1).drop_last() =~= src@.take(i as int));
        assert(src@.take(i + 1).last() == src@[i as int]);
        let sp = &src[i].1;
        let hit = match sp {
            DocValue::Table(_) => sp.get("path").is_some() || sp.get("workspace").is_some(),
            _ => false,
        };
        if hit {
            push_declared(out, "python", "path_dep", concat(src[i].0.as_str(), " (tool.uv.sources)"), "pyproject.toml");
            proof {
                let x = declared("python"@, "path_dep"@, src@[i as int].0@ + " (tool.uv.sources)"@, "pyproject.toml"@);
                lemma_appended_chain(start, before, out@, uv_sources(src@.take(i as int)), seq![x]);
                assert(uv_sources(src@.take(i as int)).push(x) =~= uv_sources(src@.take(i as int)) + seq![x]);
            }
        }
        i = i + 1;
    }
    assert(src@.take(i as int) =~= src@);
}

/// The path dependencies of a parsed `pyproject.toml`.
pub fn scan_pyproject(doc: &DocValue, out: &mut Vec<Finding>)
    ensures
        appended(old(out)@, final(out)@, pyproject_findings(*doc)),
{
    match doc.get("tool") {
        None => {
            proof { lemma_appended_none(out@); }
        },
        Some(t) => {
            let ghost s0 = out@;
            match t.get("poetry") {
                Some(pv) => {
                    match pv {
                        DocValue::Table(_) => {
                            let ghost p0 = out@;
                            poetry_key_scan(pv, "dependencies", out);
                            let ghost p1 = out@;
                            poetry_key_scan(pv, "dev-dependencies", out);
                            proof {
                                lemma_appended_chain(p0, p1, out@, poetry_key(*pv, "dependencies"@), poetry_key(*pv, "dev-dependencies"@));
                            }
                        },
                        _ => {
                            proof { lemma_appended_none(out@); }
                        },
                    }
                },
                None => {
                    proof { lemma_appended_none(out@); }
                },
            }
            let ghost s1 = out@;
            match t.get("uv") {
                Some(u) => match u.get("sources") {
                    Some(DocValue::Table(src)) => uv_scan(src, out),
                    _ => {
                        proof { lemma_appended_none(out@); }
                    },
                },
                None => {
                    proof { lemma_appended_none(out@); }
                },
            }
            proof {
                let a = match get_spec(*t, "poetry"@) {
                    Some(pv) => if pv is Table {
                        poetry_key(pv, "dependencies"@) + poetry_key(pv, "dev-dependencies"@)
                    } else {
                        Seq::empty()
                    },
                    None => Seq::empty(),
                };
                let b = match get_spec(*t, "uv"@) {
                    Some(u) => match table_of(get_spec(u, "sources"@)) {
                        Some(src) => uv_sources(src),
                        None => Seq::empty(),
                    },
                    None => Seq::empty(),
                };
                lemma_appended_chain(s0, s1, out@, a, b);
            }
        },
    }
}

/// The Python findings: the parsed `pyproject.toml` (if it was read and
/// parsed), then `requirements.txt`, `requirements-dev.txt` and
/// `dev-requirements.txt` (each if it was read).
pub fn scan_python(
    pyproject: Option<&DocValue>,
    requirements: Option<&str>,
    requirements_dev: Option<&str>,
    dev_requirements: Option<&str>,
    out: &mut Vec<Finding>,
)
    ensures
        appended(
            old(out)@,
            final(out)@,
            (match pyproject {
                Some(d) => pyproject_findings(*d),
                None => Seq::empty(),
            }) + req_file("requirements.txt"@, otext(requirements)) + req_file("requirements-dev.txt"@, otext(requirements_dev))
                + req_file("dev-requirements.txt"@, otext(dev_requirements)),
        ),
{
    let ghost s0 = out@;
    match pyproject {
        Some(d) => scan_pyproject(d, out),
        None => {
            proof { lemma_appended_none(out@); }
        },
    }
    let ghost s1 = out@;
    scan_requirements("requirements.txt", requirements, out);
    let ghost s2 = out@;
    scan_requirements("requirements-dev.txt", requirements_dev, out);
    let ghost s3 = out@;
    scan_requirements("dev-requirements.txt", dev_requirements, out);
    proof {
        let a = match pyproject {
            Some(d) => pyproject_findings(*d),
            None => Seq::empty(),
        };
        let b = req_file("requirements.txt"@, otext(requirements));
        let c = req_file("requirements-dev.txt"@, otext(requirements_dev));
        let d = req_file("dev-requirements.txt"@, otext(dev_requirements));
        lemma_appended_chain(s0, s1, s2, a, b);
        lemma_appended_chain(s0, s2, s3, a + b, c);
        lemma_appended_chain(s0, s3, out@, a + b + c, d);
    }
}

// ---------------------------------------------------------------------
// A whole repo.
// ---------------------------------------------------------------------

/// What was read from a repo checkout for the scan: each manifest that
/// exists and could be read (and, for TOML and JSON ones, parsed), the
/// names of the files in `patches/`, and the working tree's changed
/// paths (nothing when git could not list them).
#[derive(Debug)]
pub struct RepoFiles {
    pub cargo_toml: Option<DocValue>,
    pub go_mod: Option<String>,
    pub package_json: Option<DocValue>,
    pub patch_files: Vec<String>,
    pub pyproject_toml: Option<DocValue>,
    pub requirements_txt: Option<String>,
    pub requirements_dev_txt: Option<String>,
    pub dev_requirements_txt: Option<String>,
    pub composer_json: Option<DocValue>,
    pub gemfile: Option<String>,
    pub settings_gradle: Option<String>,
    pub settings_gradle_kts: Option<String>,
    pub build_gradle: Option<String>,
    pub build_gradle_kts: Option<String>,
    pub pom_xml: Option<String>,
    pub changed_paths: Option<Vec<String>>,
}

/// The view of an optional owned text.
pub open spec fn ostring(o: Option<String>) -> Option<Seq<char>> {
    match o {
        Some(t) => Some(t@),
        None => None,
    }
}

/// The findings of the Cargo, Go, npm and Python manifests of a repo.
pub open spec fn repo_findings_a(f: RepoFiles) -> Seq<FindingView> {
    (match f.cargo_toml {
        Some(d) => cargo_findings(d),
        None => Seq::empty(),
    }) + (match f.go_mod {
        Some(t) => go_scan(lines(t@)).1,
        None => Seq::empty(),
    }) + (match f.package_json {
        Some(d) => npm_findings(d, views(f.patch_files@)),
        None => Seq::empty(),
    }) + ((match f.pyproject_toml {
        Some(d) => pyproject_findings(d),
        None => Seq::empty(),
    }) + req_file("requirements.txt"@, ostring(f.requirements_txt)) + req_file(
        "requirements-dev.txt"@,
        ostring(f.requirements_dev_txt),
    ) + req_file("dev-requirements.txt"@, ostring(f.dev_requirements_txt)))
}

/// The findings of the Composer, Ruby, Gradle and Maven manifests and
/// of the vendored trees of a repo.
pub open spec fn repo_findings_b(f: RepoFiles) -> Seq<FindingView> {
    (match f.composer_json {
        Some(d) => composer_items(composer_entries(d)),
        None => Seq::empty(),
    }) + (match f.gemfile {
        Some(t) => per_line(lines(t@), |l: Seq<char>| ruby_line(l)),
        None => Seq::empty(),
    }) + (gradle_file(true, "settings.gradle"@, ostring(f.settings_gradle)) + gradle_file(
        true,
        "settings.gradle.kts"@,
        ostring(f.settings_gradle_kts),
    ) + gradle_file(false, "build.gradle"@, ostring(f.build_gradle)) + gradle_file(
        false,
        "build.gradle.kts"@,
        ostring(f.build_gradle_kts),
    )) + (match f.pom_xml {
        Some(t) => maven_findings(t@),
        None => Seq::empty(),
    }) + (match f.changed_paths {
        Some(c) => vendor_findings(views(c@), vendor_prefixes()),
        None => Seq::empty(),
    })
}

/// All findings of a repo, ecosystem by ecosystem: Cargo, Go, npm,
/// Python, Composer, Ruby, Gradle, Maven, then vendored edits.
pub open spec fn repo_findings(f: RepoFiles) -> Seq<FindingView> {
    repo_findings_a(f) + repo_findings_b(f)
}

fn as_text(o: &Option<String>) -> (r: Option<&str>)
    ensures
        otext(r) == ostring(*o),
{
    match o {
        Some(t) => Some(t.as_str()),
        None => None,
    }
}

#[verifier::rlimit(30)]
fn scan_repo_a(files: &RepoFiles, out: &mut Vec<Finding>)
    ensures
        appended(old(out)@, final(out)@, repo_findings_a(*files)),
{
    let ghost s0 = out@;
    match &files.cargo_toml {
        Some(d) => scan_cargo(d, out),
        None => {
            proof { lemma_appended_none(out@); }
        },
    }
    let ghost s1 = out@;
    match &files.go_mod {
        Some(t) => scan_go(t.as_str(), out),
        None => {
            proof { lemma_appended_none(out@); }
        },
    }
    let ghost s2 = out@;
    match &files.package_json {
        Some(d) => scan_npm(d, &files.patch_files, out),
        None => {
            proof { lemma_appended_none(out@); }
        },
    }
    let ghost s3 = out@;
    let py = match &files.pyproject_toml {
        Some(d) => Some(d),
        None => None,
    };
    scan_python(
        py,
        as_text(&files.requirements_txt),
        as_text(&files.requirements_dev_txt),
        as_text(&files.dev_requirements_txt),
        out,
    );
    proof {
        let f = *files;
        let a = match f.cargo_toml {
            Some(d) => cargo_findings(d),
            None => Seq::empty(),
        };
        let b = match f.go_mod {
            Some(t) => go_scan(lines(t@)).1,
            None => Seq::empty(),
        };
        let c = match f.package_json {
            Some(d) => npm_findings(d, views(f.patch_files@)),
            None => Seq::empty(),
        };
        let d = (match f.pyproject_toml {
            Some(d) => pyproject_findings(d),
            None => Seq::empty(),
        }) + req_file("requirements.txt"@, ostring(f.requirements_txt)) + req_file(
            "requirements-dev.txt"@,
            ostring(f.requirements_dev_txt),
        ) + req_file("dev-requirements.txt"@, ostring(f.dev_requirements_txt));
        lemma_appended_chain(s0, s1, s2, a, b);
        lemma_appended_chain(s0, s2, s3, a + b, c);
        lemma_appended_chain(s0, s3, out@, a + b + c, d);
    }
}

#[verifier::rlimit(30)]
fn scan_repo_b(files: &RepoFiles, out: &mut Vec<Finding>)
    ensures
        appended(old(out)@, final(out)@, repo_findings_b(*files)),
{
    let ghost s4 = out@;
    match &files.composer_json {
        Some(d) => scan_composer(d, out),
        None => {
            proof { lemma_appended_none(out@); }
        },
    }
    let ghost s5 = out@;
    match &files.gemfile {
        Some(t) => scan_ruby(t.as_str(), out),
        None => {
            proof { lemma_appended_none(out@); }
        },
    }
    let ghost s6 = out@;
    scan_gradle(
        as_text(&files.settings_gradle),
        as_text(&files.settings_gradle_kts),
        as_text(&files.build_gradle),
        as_text(&files.build_gradle_kts),
        out,
    );
    let ghost s7 = out@;
    match &files.pom_xml {
        Some(t) => scan_maven(t.as_str(), out),
        None => {
            proof { lemma_appended_none(out@); }
        },
    }
    let ghost s8 = out@;
    match &files.changed_paths {
        Some(c) => scan_vendored_edits(c, out),
        None => {
            proof { lemma_appended_none(out@); }
        },
    }
    proof {
        let f = *files;
        let e = match f.composer_json {
            Some(d) => composer_items(composer_entries(d)),
            None => Seq::empty(),
        };
        let g = match f.gemfile {
            Some(t) => per_line(lines(t@), |l: Seq<char>| ruby_line(l)),
            None => Seq::empty(),
        };
        let h = gradle_file(true, "settings.gradle"@, ostring(f.settings_gradle)) + gradle_file(
            true,
            "settings.gradle.kts"@,
            ostring(f.settings_gradle_kts),
        ) + gradle_file(false, "build.gradle"@, ostring(f.build_gradle)) + gradle_file(
            false,
            "build.gradle.kts"@,
            ostring(f.build_gradle_kts),
        );
        let k = match f.pom_xml {
            Some(t) => maven_findings(t@),
            None => Seq::empty(),
        };
        let m = match f.changed_paths {
            Some(c) => vendor_findings(views(c@), vendor_prefixes()),
            None => Seq::empty(),
        };
        lemma_appended_chain(s4, s5, s6, e, g);
        lemma_appended_chain(s4, s6, s7, e + g, h);
        lemma_appended_chain(s4, s7, s8, e + g + h, k);
        lemma_appended_chain(s4, s8, out@, e + g + h + k, m);
    }
}

/// Every local-patch signal of a repo checkout, from what was read of
/// it.
pub fn scan_repo(files: &RepoFiles) -> (r: Vec<Finding>)
    ensures
        finding_views(r@) == repo_findings(*files),
{
    let mut out: Vec<Finding> = Vec::new();
    let ghost s0 = out@;
    scan_repo_a(files, &mut out);
    let ghost s1 = out@;
    scan_repo_b(files, &mut out);
    proof {
        lemma_appended_chain(s0, s1, out@, repo_findings_a(*files), repo_findings_b(*files));
        assert(finding_views(s0) =~= Seq::<FindingView>::empty());
        assert(finding_views(out@) =~= repo_findings(*files));
    }
    out
}

/// The texts a local-patch scan reads of a checkout (each `None` when
/// the file is absent or unreadable), and the paths git reports as
/// changed.
#[derive(Debug)]
pub struct RepoTexts {
    pub cargo_toml: Option<String>,
    pub go_mod: Option<String>,
    pub package_json: Option<String>,
    pub patch_files: Vec<String>,
    pub pyproject_toml: Option<String>,
    pub requirements_txt: Option<String>,
    pub requirements_dev_txt: Option<String>,
    pub dev_requirements_txt: Option<String>,
    pub composer_json: Option<String>,
    pub gemfile: Option<String>,
    pub settings_gradle: Option<String>,
    pub settings_gradle_kts: Option<String>,
    pub build_gradle: Option<String>,
    pub build_gradle_kts: Option<String>,
    pub pom_xml: Option<String>,
    pub changed_paths: Option<Vec<String>>,
}

/// The TOML document of an optional text; nothing when it is absent or
/// does not parse (such a file yields no finding).
pub open spec fn toml_of(t: Option<String>) -> Option<DocValue> {
    match t {
        Some(x) => match toml_doc(x@) {
            Ok(d) => Some(d),
            Err(_) => None,
        },
        None => None,
    }
}

/// The JSON document of an optional text; nothing when it is absent or
/// does not parse.
pub open spec fn json_of(t: Option<String>) -> Option<DocValue> {
    match t {
        Some(x) => match json_doc(x@) {
            Ok(d) => Some(d),
            Err(_) => None,
        },
        None => None,
    }
}

/// What the scan reads of the texts: the manifests parsed, the rest as
/// they are.
pub open spec fn files_of(t: RepoTexts) -> RepoFiles {
    RepoFiles {
        cargo_toml: toml_of(t.cargo_toml),
        go_mod: t.go_mod,
        package_json: json_of(t.package_json),
        patch_files: t.patch_files,
        pyproject_toml: toml_of(t.pyproject_toml),
        requirements_txt: t.requirements_txt,
        requirements_dev_txt: t.requirements_dev_txt,
        dev_requirements_txt: t.dev_requirements_txt,
        composer_json: json_of(t.composer_json),
        gemfile: t.gemfile,
        settings_gradle: t.settings_gradle,
        settings_gradle_kts: t.settings_gradle_kts,
        build_gradle: t.build_gradle,
        build_gradle_kts: t.build_gradle_kts,
        pom_xml: t.pom_xml,
        changed_paths: t.changed_paths,
    }
}

fn toml_opt(t: &Option<String>) -> (r: Option<DocValue>)
    ensures
        r == toml_of(*t),
{
    match t {
        Some(x) => match parse_toml(x.as_str()) {
            Ok(d) => Some(d),
            Err(_) => None,
        },
        None => None,
    }
}

fn json_opt(t: &Option<String>) -> (r: Option<DocValue>)
    ensures
        r == json_of(*t),
{
    match t {
        Some(x) => match parse_json(x.as_str()) {
            Ok(d) => Some(d),
            Err(_) => None,
        },
        None => None,
    }
}

/// Every local-patch signal of a checkout, from the texts read of it:
/// the manifests parsed (one that does not parse yields nothing), then
/// `scan_repo`.
pub fn scan_repo_texts(texts: RepoTexts) -> (r: Vec<Finding>)
    ensures
        finding_views(r@) == repo_findings(files_of(texts)),
{
    let ghost t0 = texts;
    let cargo_toml = toml_opt(&texts.cargo_toml);
    let package_json = json_opt(&texts.package_json);
    let pyproject_toml = toml_opt(&texts.pyproject_toml);
    let composer_json = json_opt(&texts.composer_json);
    let files = RepoFiles {
        cargo_toml,
        go_mod: texts.go_mod,
        package_json,
        patch_files: texts.patch_files,
        pyproject_toml,
        requirements_txt: texts.requirements_txt,
        requirements_dev_txt: texts.requirements_dev_txt,
        dev_requirements_txt: texts.dev_requirements_txt,
        composer_json,
        gemfile: texts.gemfile,
        settings_gradle: texts.settings_gradle,
        settings_gradle_kts: texts.settings_gradle_kts,
        build_gradle: texts.build_gradle,
        build_gradle_kts: texts.build_gradle_kts,
        pom_xml: texts.pom_xml,
        changed_paths: texts.changed_paths,
    };
    assert(files == files_of(t0));
    scan_repo(&files)
}

} // verus!
